use vstd::prelude::*;

use crate::models::mirror_tool::MirrorTool;

verus! {

/// An operation that the privileged helper carries out.
#[derive(Debug, Clone)]
pub enum Op {
    NewSession,
    SyncDb,
    SysUpgrade,
    SysUpgradeNoConfirm,
    Install { targets: Vec<String>, as_deps: bool, reinstall: bool },
    InstallFiles { paths: Vec<String>, as_deps: bool },
    AurBuildInstall { name: String, as_deps: bool },
    RemoveMakeDeps { targets: Vec<String> },
    Remove { targets: Vec<String>, cascade: bool, nosave: bool },
    SetIgnorePkg { name: String, ignored: bool },
    RemoveDbLock,
    PaccacheClean { keep: u32, keep_uninstalled: u32 },
    RestartService { name: String },
    SnapshotTimeshift { comment: String },
    SnapshotSnapper { description: String },
    RefreshMirrors { tool: MirrorTool },
    RunPacdiff,
}

/// An [`Op`] with its strings taken as character sequences.
pub enum OpView {
    NewSession,
    SyncDb,
    SysUpgrade,
    SysUpgradeNoConfirm,
    Install { targets: Seq<Seq<char>>, as_deps: bool, reinstall: bool },
    InstallFiles { paths: Seq<Seq<char>>, as_deps: bool },
    AurBuildInstall { name: Seq<char>, as_deps: bool },
    RemoveMakeDeps { targets: Seq<Seq<char>> },
    Remove { targets: Seq<Seq<char>>, cascade: bool, nosave: bool },
    SetIgnorePkg { name: Seq<char>, ignored: bool },
    RemoveDbLock,
    PaccacheClean { keep: u32, keep_uninstalled: u32 },
    RestartService { name: Seq<char> },
    SnapshotTimeshift { comment: Seq<char> },
    SnapshotSnapper { description: Seq<char> },
    RefreshMirrors { tool: MirrorTool },
    RunPacdiff,
}

impl View for Op {
    type V = OpView;

    open spec fn view(&self) -> OpView {
        match self {
            Op::NewSession => OpView::NewSession,
            Op::SyncDb => OpView::SyncDb,
            Op::SysUpgrade => OpView::SysUpgrade,
            Op::SysUpgradeNoConfirm => OpView::SysUpgradeNoConfirm,
            Op::Install { targets, as_deps, reinstall } => OpView::Install {
                targets: targets.deep_view(),
                as_deps: *as_deps,
                reinstall: *reinstall,
            },
            Op::InstallFiles { paths, as_deps } => OpView::InstallFiles {
                paths: paths.deep_view(),
                as_deps: *as_deps,
            },
            Op::AurBuildInstall { name, as_deps } => OpView::AurBuildInstall {
                name: name@,
                as_deps: *as_deps,
            },
            Op::RemoveMakeDeps { targets } => OpView::RemoveMakeDeps {
                targets: targets.deep_view(),
            },
            Op::Remove { targets, cascade, nosave } => OpView::Remove {
                targets: targets.deep_view(),
                cascade: *cascade,
                nosave: *nosave,
            },
            Op::SetIgnorePkg { name, ignored } => OpView::SetIgnorePkg {
                name: name@,
                ignored: *ignored,
            },
            Op::RemoveDbLock => OpView::RemoveDbLock,
            Op::PaccacheClean { keep, keep_uninstalled } => OpView::PaccacheClean {
                keep: *keep,
                keep_uninstalled: *keep_uninstalled,
            },
            Op::RestartService { name } => OpView::RestartService { name: name@ },
            Op::SnapshotTimeshift { comment } => OpView::SnapshotTimeshift { comment: comment@ },
            Op::SnapshotSnapper { description } => OpView::SnapshotSnapper {
                description: description@,
            },
            Op::RefreshMirrors { tool } => OpView::RefreshMirrors { tool: *tool },
            Op::RunPacdiff => OpView::RunPacdiff,
        }
    }
}

/// The operations that run an interactive program on the caller's terminal.
pub open spec fn op_wants_tty(op: OpView) -> bool {
    ||| op is SysUpgrade
    ||| op is Install
    ||| op is InstallFiles
    ||| op is AurBuildInstall
    ||| op is Remove
    ||| op is RefreshMirrors
    ||| op is RunPacdiff
}

impl Op {
    /// Whether this operation needs the caller's terminal.
    pub fn wants_tty(&self) -> (r: bool)
        ensures
            r == op_wants_tty(self@),
    {
        match self {
            Op::SysUpgrade | Op::Install { .. } | Op::InstallFiles { .. }
            | Op::AurBuildInstall { .. } | Op::Remove { .. } | Op::RefreshMirrors { .. }
            | Op::RunPacdiff => true,
            _ => false,
        }
    }
}

} // verus!
