use vstd::prelude::*;

verus! {

/// The privileged helper's answer to a request.
#[derive(Debug, Clone)]
pub enum Response {
    Done { exit_code: i32, stdout: String, stderr: String },
    Error { message: String },
}

pub enum ResponseView {
    Done { exit_code: i32, stdout: Seq<char>, stderr: Seq<char> },
    Error { message: Seq<char> },
}

impl View for Response {
    type V = ResponseView;

    open spec fn view(&self) -> ResponseView {
        match self {
            Response::Done { exit_code, stdout, stderr } => ResponseView::Done {
                exit_code: *exit_code,
                stdout: stdout@,
                stderr: stderr@,
            },
            Response::Error { message } => ResponseView::Error { message: message@ },
        }
    }
}

impl Response {
    /// A command ran and exited with status 0.
    pub fn is_success(&self) -> (r: bool)
        ensures
            r == (self@ matches ResponseView::Done { exit_code, .. } && exit_code == 0),
    {
        match self {
            Response::Done { exit_code, .. } => *exit_code == 0,
            Response::Error { .. } => false,
        }
    }

    /// An error response carrying `message`.
    pub fn error(message: String) -> (r: Response)
        ensures
            r@ == (ResponseView::Error { message: message@ }),
    {
        Response::Error { message }
    }
}

} // verus!
