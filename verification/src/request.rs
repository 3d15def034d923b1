//! The request encoder: the working directory and the command-line arguments
//! as one line of JSON.

use vstd::prelude::*;
use vstd::string::StringExecFns;
use vstd::string::StrSliceExecFns;
use vstd::utf8::encode_utf8;
use crate::frame::NEWLINE;

verus! {

/// The flag that announces the caller's working directory.
pub const WORK_DIR_FLAG: &'static str = "--work-dir";

/// `serde_json::Error`, the error of the JSON writer; nothing is known of
/// what it holds.
#[verifier::external_type_specification]
#[verifier::external_body]
pub struct ExJsonError(serde_json::Error);

/// The compact JSON text that `serde_json` writes for an array of strings.
pub uninterp spec fn json_array_text(items: Seq<Seq<char>>) -> Seq<char>;

/// The text of each string of a list.
pub open spec fn texts(items: Seq<String>) -> Seq<Seq<char>> {
    Seq::new(items.len(), |i: int| items[i]@)
}

/// `serde_json::to_string` on a list of strings. Its result is the JSON
/// array of these strings, a function of the strings alone. It is never an
/// error: the function fails only where a value refuses to be serialized or a
/// map has a key that is no string, and a list of strings has neither.
#[verifier::external_body]
fn to_json(items: &Vec<String>) -> (result: Result<String, serde_json::Error>)
    ensures
        result is Ok,
        result matches Ok(text) ==> text@ == json_array_text(texts(items@)),
{
    serde_json::to_string(items)
}

/// What a request consists of: the working-directory flag, the working
/// directory, and then the arguments as they were given.
pub open spec fn request_items(cwd: Seq<char>, args: Seq<Seq<char>>) -> Seq<Seq<char>> {
    seq![WORK_DIR_FLAG@, cwd] + args
}

/// The bytes of a line of text: its UTF-8 encoding and the newline.
pub open spec fn line_bytes(text: Seq<char>) -> Seq<u8> {
    encode_utf8(text).push(NEWLINE)
}

/// The bytes that go to the daemon for a list of request items.
pub open spec fn request_bytes(items: Seq<Seq<char>>) -> Seq<u8> {
    line_bytes(json_array_text(items))
}

/// Puts the working-directory flag and the working directory in front of the
/// arguments. The arguments keep their order, and none is dropped or merged.
pub fn build_request(cwd: &str, args: &Vec<String>) -> (items: Vec<String>)
    ensures
        texts(items@) == request_items(cwd@, texts(args@)),
{
    let mut items: Vec<String> = Vec::new();
    items.push(String::from_str(WORK_DIR_FLAG));
    items.push(String::from_str(cwd));
    let mut i: usize = 0;
    while i < args.len()
        invariant
            0 <= i <= args.len(),
            texts(items@) == seq![WORK_DIR_FLAG@, cwd@] + texts(args@).take(i as int),
        decreases args.len() - i,
    {
        let ghost before = items@;
        items.push(args[i].clone());
        assert(texts(before).len() == before.len());
        assert forall|k: int| 0 <= k < items@.len() implies texts(items@)[k] == (seq![
            WORK_DIR_FLAG@,
            cwd@,
        ] + texts(args@).take(i as int + 1))[k] by {
            if k < before.len() {
                assert(texts(before)[k] == texts(items@)[k]);
            }
        }
        assert(texts(items@) =~= seq![WORK_DIR_FLAG@, cwd@] + texts(args@).take(i as int + 1));
        i += 1;
    }
    assert(texts(args@).take(args@.len() as int) =~= texts(args@));
    items
}

/// Turns a text into the line that is written to the connection: its bytes,
/// followed by one newline.
pub fn frame_line(text: &str) -> (bytes: Vec<u8>)
    ensures
        bytes@ == line_bytes(text@),
{
    let mut bytes = text.as_bytes_vec();
    bytes.push(NEWLINE);
    bytes
}

/// Encodes the request of one invocation: the JSON array of the
/// working-directory flag, the working directory and the arguments, on a
/// line of its own.
pub fn encode(cwd: &str, args: &Vec<String>) -> (bytes: Vec<u8>)
    ensures
        bytes@ == request_bytes(request_items(cwd@, texts(args@))),
{
    let items = build_request(cwd, args);
    let text = to_json(&items).unwrap();
    frame_line(text.as_str())
}

} // verus!
