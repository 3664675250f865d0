//! JSON documents as the library reads them, and what it reads from the
//! AUR's RPC replies.
use vstd::prelude::*;

use vstd::utf8::{encode_utf8, valid_utf8};

use crate::helpers::aur_pkgbuild::text_from_utf8;
use crate::models::aur_info::AurInfo;
use crate::text::str_eq;


verus! {

/// A JSON value. Numbers that fit an `i64` are kept; other numbers are only
/// known to be numbers.
pub enum Json {
    Null,
    Bool(bool),
    Int(i64),
    OtherNumber,
    Str(String),
    Array(Vec<Json>),
    Object(Vec<(String, Json)>),
}

pub enum JsonView {
    Null,
    Bool(bool),
    Int(i64),
    OtherNumber,
    Str(Seq<char>),
    Array(Seq<JsonView>),
    Object(Seq<(Seq<char>, JsonView)>),
}

pub open spec fn json_view(j: Json) -> JsonView
    decreases j,
{
    match j {
        Json::Null => JsonView::Null,
        Json::Bool(b) => JsonView::Bool(b),
        Json::Int(i) => JsonView::Int(i),
        Json::OtherNumber => JsonView::OtherNumber,
        Json::Str(s) => JsonView::Str(s@),
        Json::Array(v) => JsonView::Array(
            Seq::new(
                v@.len(),
                |i: int|
                    if 0 <= i < v@.len() {
                        proof {
                            assert(decreases_to!(j => v));
                            assert(decreases_to!(v => v@));
                            assert(decreases_to!(v@ => v@[i]));
                        }
                        json_view(v@[i])
                    } else {
                        JsonView::Null
                    },
            ),
        ),
        Json::Object(v) => JsonView::Object(
            Seq::new(
                v@.len(),
                |i: int|
                    if 0 <= i < v@.len() {
                        proof {
                            assert(decreases_to!(j => v));
                            assert(decreases_to!(v => v@));
                            assert(decreases_to!(v@ => v@[i]));
                            assert(decreases_to!(v@[i] => v@[i].1));
                        }
                        (v@[i].0@, json_view(v@[i].1))
                    } else {
                        (seq![], JsonView::Null)
                    },
            ),
        ),
    }
}

impl View for Json {
    type V = JsonView;

    open spec fn view(&self) -> JsonView {
        json_view(*self)
    }
}

pub open spec fn opt_json_view(r: Option<Json>) -> Option<JsonView> {
    match r {
        Some(j) => Some(j@),
        None => None,
    }
}

#[verifier::external_type_specification]
#[verifier::external_body]
pub struct ExJsonValue(serde_json::Value);

/// What `serde_json::from_str::<serde_json::Value>` reads from `body`, as a
/// [`JsonView`]: `None` when `body` is not one JSON document. It depends on
/// `body` alone.
pub uninterp spec fn parsed_json(body: Seq<char>) -> Option<JsonView>;

/// `serde_json::from_str::<serde_json::Value>(body)`, its error dropped and
/// its value converted to a [`Json`]; the claim is that the result is the
/// parse of `body` (nothing more is said of that parse).
#[verifier::external_body]
pub fn parse_json(body: &str) -> (r: Option<Json>)
    ensures
        opt_json_view(r) == parsed_json(body@),
{
    serde_json::from_str::<serde_json::Value>(body).ok().map(json_of)
}

/// A `serde_json::Value` as a [`Json`], one variant for one variant; a
/// number becomes `Int` when `Number::as_i64` gives it.
#[verifier::external_body]
fn json_of(v: serde_json::Value) -> Json {
    match v {
        serde_json::Value::Null => Json::Null,
        serde_json::Value::Bool(b) => Json::Bool(b),
        serde_json::Value::Number(n) => match n.as_i64() {
            Some(i) => Json::Int(i),
            None => Json::OtherNumber,
        },
        serde_json::Value::String(s) => Json::Str(s),
        serde_json::Value::Array(a) => Json::Array(a.into_iter().map(json_of).collect()),
        serde_json::Value::Object(m) => Json::Object(m.into_iter().map(|(k, x)| (k, json_of(x))).collect()),
    }
}

// ---------------------------------------------------------------------
// Reading fields
// ---------------------------------------------------------------------

/// The value of the first field named `key`.
pub open spec fn field_of(fs: Seq<(Seq<char>, JsonView)>, key: Seq<char>) -> Option<JsonView>
    decreases fs.len(),
{
    if fs.len() == 0 {
        None
    } else if fs[0].0 == key {
        Some(fs[0].1)
    } else {
        field_of(fs.drop_first(), key)
    }
}

/// What `Value::get(key)` gives: the field `key` of an object, none for
/// anything else.
pub open spec fn json_get(o: JsonView, key: Seq<char>) -> Option<JsonView> {
    match o {
        JsonView::Object(fs) => field_of(fs, key),
        _ => None,
    }
}

/// The field `key` of `o` when it is a string.
pub open spec fn json_str(o: JsonView, key: Seq<char>) -> Option<Seq<char>> {
    match json_get(o, key) {
        Some(JsonView::Str(s)) => Some(s),
        _ => None,
    }
}

/// The field `key` of `o` when it is a number that fits an `i64`.
pub open spec fn json_int(o: JsonView, key: Seq<char>) -> Option<i64> {
    match json_get(o, key) {
        Some(JsonView::Int(i)) => Some(i),
        _ => None,
    }
}

pub open spec fn opt_str_view(v: Option<String>) -> Option<Seq<char>> {
    match v {
        Some(s) => Some(s@),
        None => None,
    }
}

/// The field `key` of `o`, when `o` is an object that has one.
pub fn get_field<'a>(o: &'a Json, key: &str) -> (r: Option<&'a Json>)
    ensures
        match r {
            Some(x) => json_get(o@, key@) == Some(x@),
            None => json_get(o@, key@) is None,
        },
{
    match o {
        Json::Object(fs) => {
            let ghost all = json_view(*o)->Object_0;
            proof {
                assert(all.skip(0) =~= all);
            }
            let mut i: usize = 0;
            while i < fs.len()
                invariant
                    all == json_view(*o)->Object_0,
                    o == Json::Object(*fs),
                    i <= fs@.len(),
                    all.len() == fs@.len(),
                    field_of(all, key@) == field_of(all.skip(i as int), key@),
                decreases fs@.len() - i,
            {
                proof {
                    assert(all[i as int] == (fs@[i as int].0@, json_view(fs@[i as int].1)));
                    assert(all.skip(i as int).drop_first() =~= all.skip(i + 1));
                    assert(all.skip(i as int)[0] == all[i as int]);
                }
                if str_eq(fs[i].0.as_str(), key) {
                    return Some(&fs[i].1);
                }
                i += 1;
            }
            None
        },
        _ => None,
    }
}

/// The field `key` of `o` when it is a string.
pub fn str_field(o: &Json, key: &str) -> (r: Option<String>)
    ensures
        opt_str_view(r) == json_str(o@, key@),
{
    match get_field(o, key) {
        Some(Json::Str(s)) => Some(s.clone()),
        _ => None,
    }
}

/// The field `key` of `o` when it is a number that fits an `i64`.
pub fn int_field(o: &Json, key: &str) -> (r: Option<i64>)
    ensures
        r == json_int(o@, key@),
{
    match get_field(o, key) {
        Some(Json::Int(i)) => Some(*i),
        _ => None,
    }
}

// ---------------------------------------------------------------------
// AUR RPC replies
// ---------------------------------------------------------------------

/// The entries of a reply: its `results` array, none when the reply is not
/// JSON, not an object or has no such array.
pub open spec fn reply_results(reply: Option<JsonView>) -> Seq<JsonView> {
    match reply {
        Some(o) => match json_get(o, "results"@) {
            Some(JsonView::Array(a)) => a,
            _ => seq![],
        },
        None => seq![],
    }
}

/// What an entry of an `info` reply tells of a package.
pub struct AurInfoView {
    pub version: Option<Seq<char>>,
    pub description: Option<Seq<char>>,
    pub url: Option<Seq<char>>,
    pub last_modified: Option<i64>,
    pub first_submitted: Option<i64>,
    pub out_of_date: Option<i64>,
    pub maintainer: Option<Seq<char>>,
    pub num_votes: Option<i64>,
}

pub open spec fn aur_info_view(i: AurInfo) -> AurInfoView {
    AurInfoView {
        version: opt_str_view(i.version),
        description: opt_str_view(i.description),
        url: opt_str_view(i.url),
        last_modified: i.last_modified,
        first_submitted: i.first_submitted,
        out_of_date: i.out_of_date,
        maintainer: opt_str_view(i.maintainer),
        num_votes: i.num_votes,
    }
}

/// The strings `Version`, `Description`, `URL` and `Maintainer` and the
/// integers `LastModified`, `FirstSubmitted`, `OutOfDate` and `NumVotes` of
/// an entry, each none when missing or of another type.
pub open spec fn info_fields(e: JsonView) -> AurInfoView {
    AurInfoView {
        version: json_str(e, "Version"@),
        description: json_str(e, "Description"@),
        url: json_str(e, "URL"@),
        last_modified: json_int(e, "LastModified"@),
        first_submitted: json_int(e, "FirstSubmitted"@),
        out_of_date: json_int(e, "OutOfDate"@),
        maintainer: json_str(e, "Maintainer"@),
        num_votes: json_int(e, "NumVotes"@),
    }
}

/// The entries that have a string `Name`, with that name and their
/// fields, in reply order. Where two entries share a name, the later one is
/// the one that counts: lookups (see `info_for`) take the last.
pub open spec fn reply_infos(rs: Seq<JsonView>) -> Seq<(Seq<char>, AurInfoView)>
    decreases rs.len(),
{
    if rs.len() == 0 {
        seq![]
    } else {
        let rest = reply_infos(rs.drop_last());
        match json_str(rs.last(), "Name"@) {
            Some(n) => rest.push((n, info_fields(rs.last()))),
            None => rest,
        }
    }
}

pub open spec fn info_entry_views(v: Seq<(String, AurInfo)>) -> Seq<(Seq<char>, AurInfoView)> {
    v.map_values(|p: (String, AurInfo)| (p.0@, aur_info_view(p.1)))
}

fn info_of_entry(e: &Json) -> (r: AurInfo)
    ensures
        aur_info_view(r) == info_fields(e@),
{
    AurInfo {
        version: str_field(e, "Version"),
        description: str_field(e, "Description"),
        url: str_field(e, "URL"),
        last_modified: int_field(e, "LastModified"),
        first_submitted: int_field(e, "FirstSubmitted"),
        out_of_date: int_field(e, "OutOfDate"),
        maintainer: str_field(e, "Maintainer"),
        num_votes: int_field(e, "NumVotes"),
    }
}

/// The `results` entries of a parsed reply, as values.
fn results_of(reply: &Option<Json>) -> (r: Option<&Vec<Json>>)
    ensures
        match r {
            Some(v) => reply_results(opt_json_view(*reply)) == v@.map_values(|j: Json| j@),
            None => reply_results(opt_json_view(*reply)) == Seq::<JsonView>::empty(),
        },
{
    match reply {
        Some(o) => match get_field(o, "results") {
            Some(Json::Array(a)) => {
                proof {
                    assert(json_view(Json::Array(*a))->Array_0 =~= a@.map_values(|j: Json| j@));
                }
                Some(a)
            },
            _ => None,
        },
        None => None,
    }
}

/// What the AUR's `info` reply `body` says of each package: the entries of
/// its `results` array that have a string `Name`, in order (see
/// [`reply_infos`]).
pub fn aur_infos_from_reply(body: &str) -> (r: Vec<(String, AurInfo)>)
    ensures
        info_entry_views(r@) == reply_infos(reply_results(parsed_json(body@))),
{
    let reply = parse_json(body);
    aur_infos_from_json(&reply)
}

/// What a parsed `info` reply says of each package (see [`reply_infos`]);
/// none when the reply is `None`, not an object, or has no `results` array.
pub fn aur_infos_from_json(reply: &Option<Json>) -> (r: Vec<(String, AurInfo)>)
    ensures
        info_entry_views(r@) == reply_infos(reply_results(opt_json_view(*reply))),
{
    let mut out: Vec<(String, AurInfo)> = Vec::new();
    let rs = match results_of(reply) {
        Some(a) => a,
        None => {
            proof {
                assert(info_entry_views(out@) =~= seq![]);
            }
            return out;
        },
    };
    let ghost all = rs@.map_values(|j: Json| j@);
    let mut i: usize = 0;
    while i < rs.len()
        invariant
            all == rs@.map_values(|j: Json| j@),
            i <= rs@.len(),
            info_entry_views(out@) == reply_infos(all.take(i as int)),
        decreases rs@.len() - i,
    {
        proof {
            assert(all.take(i + 1).drop_last() =~= all.take(i as int));
            assert(all.take(i + 1).last() == rs@[i as int]@);
        }
        let e = &rs[i];
        match str_field(e, "Name") {
            Some(n) => {
                let info = info_of_entry(e);
                let ghost o0 = out@;
                out.push((n, info));
                proof {
                    assert(info_entry_views(out@) =~= info_entry_views(o0).push((n@, aur_info_view(info))));
                }
            },
            None => {},
        }
        i += 1;
    }
    proof {
        assert(all.take(rs@.len() as int) =~= all);
    }
    out
}

pub open spec fn str_or_empty(v: Option<Seq<char>>) -> Seq<char> {
    match v {
        Some(s) => s,
        None => seq![],
    }
}

/// The rows of a `search` reply: for each entry, its string `Name`,
/// `Version` and `Description` (each empty when missing or not a string),
/// skipping entries whose name is empty.
pub open spec fn reply_rows(rs: Seq<JsonView>) -> Seq<(Seq<char>, Seq<char>, Seq<char>)>
    decreases rs.len(),
{
    if rs.len() == 0 {
        seq![]
    } else {
        let rest = reply_rows(rs.drop_last());
        let e = rs.last();
        let name = str_or_empty(json_str(e, "Name"@));
        if name.len() == 0 {
            rest
        } else {
            rest.push((name, str_or_empty(json_str(e, "Version"@)), str_or_empty(json_str(e, "Description"@))))
        }
    }
}

pub open spec fn row_views(v: Seq<(String, String, String)>) -> Seq<(Seq<char>, Seq<char>, Seq<char>)> {
    v.map_values(|r: (String, String, String)| (r.0@, r.1@, r.2@))
}

fn str_field_or_empty(o: &Json, key: &str) -> (r: String)
    ensures
        r@ == str_or_empty(json_str(o@, key@)),
{
    match str_field(o, key) {
        Some(s) => s,
        None => String::new(),
    }
}

/// The (name, version, description) rows of the AUR's `search` reply
/// `body` (see [`reply_rows`]).
pub fn aur_search_from_reply(body: &str) -> (r: Vec<(String, String, String)>)
    ensures
        row_views(r@) == reply_rows(reply_results(parsed_json(body@))),
{
    let reply = parse_json(body);
    aur_search_from_json(&reply)
}

/// The rows of a parsed `search` reply (see [`reply_rows`]).
pub fn aur_search_from_json(reply: &Option<Json>) -> (r: Vec<(String, String, String)>)
    ensures
        row_views(r@) == reply_rows(reply_results(opt_json_view(*reply))),
{
    let mut out: Vec<(String, String, String)> = Vec::new();
    let rs = match results_of(reply) {
        Some(a) => a,
        None => {
            proof {
                assert(row_views(out@) =~= seq![]);
            }
            return out;
        },
    };
    let ghost all = rs@.map_values(|j: Json| j@);
    let mut i: usize = 0;
    while i < rs.len()
        invariant
            all == rs@.map_values(|j: Json| j@),
            i <= rs@.len(),
            row_views(out@) == reply_rows(all.take(i as int)),
        decreases rs@.len() - i,
    {
        proof {
            assert(all.take(i + 1).drop_last() =~= all.take(i as int));
            assert(all.take(i + 1).last() == rs@[i as int]@);
        }
        let e = &rs[i];
        let name = str_field_or_empty(e, "Name");
        if !name.as_str().is_empty() {
            let version = str_field_or_empty(e, "Version");
            let description = str_field_or_empty(e, "Description");
            let ghost o0 = out@;
            out.push((name, version, description));
            proof {
                assert(row_views(out@) =~= row_views(o0).push((name@, version@, description@)));
            }
        }
        i += 1;
    }
    proof {
        assert(all.take(rs@.len() as int) =~= all);
    }
    out
}

/// The body of a reply as text: none when its bytes are not valid UTF-8.
pub fn reply_text(bytes: Vec<u8>) -> (r: Option<String>)
    ensures
        r is Some <==> valid_utf8(bytes@),
        r matches Some(t) ==> encode_utf8(t@) == bytes@,
{
    text_from_utf8(bytes)
}

} // verus!
