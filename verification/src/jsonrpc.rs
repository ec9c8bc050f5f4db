//! Messages as they travel: the envelope round the parameters of a request or
//! a notification, and what the head of an incoming message says it is.

use crate::wire::{digits, frame, frame_of, push_decimal};
use vstd::prelude::*;
use vstd::utf8::{encode_utf8, encode_utf8_decode_utf8};

verus! {

/// The body of a request: the protocol version, the identifier, the method and
/// the parameters, which are JSON already.
pub open spec fn request_body(id: u32, method: Seq<u8>, params: Seq<u8>) -> Seq<u8> {
    encode_utf8("{\"jsonrpc\":\"2.0\",\"id\":"@) + digits(id as nat) + encode_utf8(
        ",\"method\":\""@,
    ) + method + encode_utf8("\",\"params\":"@) + params + encode_utf8("}"@)
}

/// The body of a notification: as that of a request, without an identifier.
pub open spec fn notification_body(method: Seq<u8>, params: Seq<u8>) -> Seq<u8> {
    encode_utf8("{\"jsonrpc\":\"2.0\",\"method\":\""@) + method + encode_utf8(
        "\",\"params\":"@,
    ) + params + encode_utf8("}"@)
}

/// The frame of the request `id` for `method`, with `params` as its
/// parameters. `method` is put in as it is, and `params` is JSON text.
pub fn request(id: u32, method: &str, params: &str) -> (out: Vec<u8>)
    ensures
        out@ == frame_of(request_body(id, encode_utf8(method@), encode_utf8(params@))),
{
    let mut body: Vec<u8> = Vec::new();
    body.extend_from_slice("{\"jsonrpc\":\"2.0\",\"id\":".as_bytes());
    push_decimal(&mut body, id as usize);
    body.extend_from_slice(",\"method\":\"".as_bytes());
    body.extend_from_slice(method.as_bytes());
    body.extend_from_slice("\",\"params\":".as_bytes());
    body.extend_from_slice(params.as_bytes());
    body.extend_from_slice("}".as_bytes());
    frame(body.as_slice())
}

/// The frame of a notification for `method`, with `params` as its parameters.
pub fn notification(method: &str, params: &str) -> (out: Vec<u8>)
    ensures
        out@ == frame_of(notification_body(encode_utf8(method@), encode_utf8(params@))),
{
    let mut body: Vec<u8> = Vec::new();
    body.extend_from_slice("{\"jsonrpc\":\"2.0\",\"method\":\"".as_bytes());
    body.extend_from_slice(method.as_bytes());
    body.extend_from_slice("\",\"params\":".as_bytes());
    body.extend_from_slice(params.as_bytes());
    body.extend_from_slice("}".as_bytes());
    frame(body.as_slice())
}

/// Whether two byte strings are the same.
pub fn bytes_eq(a: &[u8], b: &[u8]) -> (r: bool)
    ensures
        r == (a@ == b@),
{
    if a.len() != b.len() {
        return false;
    }
    let mut i: usize = 0;
    while i < a.len()
        invariant
            i <= a.len(),
            a.len() == b.len(),
            forall|k: int| 0 <= k < i ==> a@[k] == b@[k],
        decreases a.len() - i,
    {
        if a[i] != b[i] {
            return false;
        }
        i = i + 1;
    }
    proof {
        assert(a@ =~= b@);
    }
    true
}

/// Whether two texts are the same.
pub fn str_eq(a: &str, b: &str) -> (r: bool)
    ensures
        r == (a@ == b@),
{
    proof {
        encode_utf8_decode_utf8(a@);
        encode_utf8_decode_utf8(b@);
    }
    bytes_eq(a.as_bytes(), b.as_bytes())
}

/// One member of a JSON object, as far as it matters for telling messages
/// apart.
#[derive(Debug)]
pub enum Member {
    /// The object has no such member, or the text is no object.
    Missing,
    /// The member is `null`.
    Null,
    /// The member is a number without sign or fraction that fits 64 bits.
    Unsigned(u64),
    /// The member is this text.
    Text(String),
    /// The member is anything else.
    Other,
}

/// One member of a JSON object, as mathematics.
pub enum MemberModel {
    Missing,
    Null,
    Unsigned(u64),
    Text(Seq<char>),
    Other,
}

impl View for Member {
    type V = MemberModel;

    open spec fn view(&self) -> MemberModel {
        match self {
            Member::Missing => MemberModel::Missing,
            Member::Null => MemberModel::Null,
            Member::Unsigned(n) => MemberModel::Unsigned(*n),
            Member::Text(text) => MemberModel::Text(text@),
            Member::Other => MemberModel::Other,
        }
    }
}

/// What tells the kinds of message apart: the members `id` and `method`.
#[derive(Debug)]
pub struct MessageHead {
    pub id: Member,
    pub method: Member,
}

/// The head of a message, as mathematics.
pub struct HeadModel {
    pub id: MemberModel,
    pub method: MemberModel,
}

impl View for MessageHead {
    type V = HeadModel;

    open spec fn view(&self) -> HeadModel {
        HeadModel { id: self.id@, method: self.method@ }
    }
}

/// What an incoming message is.
#[derive(Debug, Clone, Copy, PartialEq, Eq, Structural)]
pub enum FrameKind {
    /// The answer to the request `id`.
    Response { id: u32 },
    /// A request of the server, to set up the report of progress.
    Request { id: u32 },
    /// A notification of the server, on progress.
    Notification,
    /// Anything else.
    Unknown,
}

/// The identifier in a head: its `id`, where that is a number without sign or
/// fraction that fits 32 bits.
pub open spec fn head_id(h: HeadModel) -> Option<u32> {
    match h.id {
        MemberModel::Unsigned(id) => if id <= u32::MAX {
            Some(id as u32)
        } else {
            None
        },
        _ => None,
    }
}

/// What a message with the head `h` is. With an identifier and no method, or
/// `null` for one, it is an answer. With an identifier and a method it is a
/// request of the server, of which one is known. With a method and no
/// identifier it is a notification, of which one is known. A method that is no
/// text makes it none of these.
pub open spec fn kind_of(h: HeadModel) -> FrameKind {
    match (head_id(h), h.method) {
        (Some(id), MemberModel::Missing) => FrameKind::Response { id },
        (Some(id), MemberModel::Null) => FrameKind::Response { id },
        (Some(id), MemberModel::Text(name)) => if name == "window/workDoneProgress/create"@ {
            FrameKind::Request { id }
        } else {
            FrameKind::Unknown
        },
        (None, MemberModel::Text(name)) => if name == "$/progress"@ {
            FrameKind::Notification
        } else {
            FrameKind::Unknown
        },
        _ => FrameKind::Unknown,
    }
}

/// What a message with this head is.
pub fn classify(head: &MessageHead) -> (kind: FrameKind)
    ensures
        kind == kind_of(head@),
{
    let id: Option<u32> = match head.id {
        Member::Unsigned(id) => if id <= u32::MAX as u64 {
            Some(id as u32)
        } else {
            None
        },
        _ => None,
    };
    match (id, &head.method) {
        (Some(id), Member::Missing) => FrameKind::Response { id },
        (Some(id), Member::Null) => FrameKind::Response { id },
        (Some(id), Member::Text(name)) => {
            if str_eq(name.as_str(), "window/workDoneProgress/create") {
                FrameKind::Request { id }
            } else {
                FrameKind::Unknown
            }
        },
        (None, Member::Text(name)) => {
            if str_eq(name.as_str(), "$/progress") {
                FrameKind::Notification
            } else {
                FrameKind::Unknown
            }
        },
        _ => FrameKind::Unknown,
    }
}

/// The member `key` of the JSON text `body`, or nothing where `body` is no
/// JSON text.
pub uninterp spec fn json_member(body: Seq<u8>, key: Seq<char>) -> Option<MemberModel>;

/// `serde_json::from_slice`, read as a `serde_json::Value`, and `Value::get`
/// on it: the member `key` of the JSON text in `body`, by the variant of its
/// value, or nothing where `body` is no JSON text.
#[verifier::external_body]
pub(crate) fn read_member(body: &[u8], key: &str) -> (member: Option<Member>)
    ensures
        member.is_some() == json_member(body@, key@).is_some(),
        member.is_some() ==> member.unwrap()@ == json_member(body@, key@).unwrap(),
{
    let value: serde_json::Value = serde_json::from_slice(body).ok()?;
    Some(match value.get(key) {
        None => Member::Missing,
        Some(serde_json::Value::Null) => Member::Null,
        Some(serde_json::Value::Number(n)) => n.as_u64().map_or(Member::Other, Member::Unsigned),
        Some(serde_json::Value::String(text)) => Member::Text(text.clone()),
        Some(_) => Member::Other,
    })
}

/// What the message with the members `id` and `method` is, where the text had
/// both to give: where it is JSON text.
pub open spec fn kind_of_members(id: Option<MemberModel>, method: Option<MemberModel>) -> Option<
    FrameKind,
> {
    match (id, method) {
        (Some(id), Some(method)) => Some(kind_of(HeadModel { id, method })),
        _ => None,
    }
}

/// What the message in `body` is, or nothing where `body` is no JSON text.
pub fn inspect(body: &[u8]) -> (kind: Option<FrameKind>)
    ensures
        kind == kind_of_members(json_member(body@, "id"@), json_member(body@, "method"@)),
{
    match (read_member(body, "id"), read_member(body, "method")) {
        (Some(id), Some(method)) => Some(classify(&MessageHead { id, method })),
        _ => None,
    }
}

} // verus!
