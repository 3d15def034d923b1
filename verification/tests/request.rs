use blackfast::request::{build_request, encode, frame_line, WORK_DIR_FLAG};

fn strings(items: &[&str]) -> Vec<String> {
    items.iter().map(|item| item.to_string()).collect()
}

#[test]
fn request_round_trip() {
    let bytes = encode("/tmp/proj", &strings(&["--check", "foo.py"]));
    assert_eq!(bytes, b"[\"--work-dir\",\"/tmp/proj\",\"--check\",\"foo.py\"]\n".to_vec());
}

#[test]
fn request_without_arguments() {
    assert_eq!(encode("/", &Vec::new()), b"[\"--work-dir\",\"/\"]\n".to_vec());
}

#[test]
fn request_is_one_line() {
    let bytes = encode("/tmp/two\nlines", &strings(&["a\nb", "c\r\n"]));
    assert_eq!(bytes.iter().filter(|byte| **byte == b'\n').count(), 1);
    assert_eq!(bytes.last(), Some(&b'\n'));
    assert_eq!(
        bytes,
        b"[\"--work-dir\",\"/tmp/two\\nlines\",\"a\\nb\",\"c\\r\\n\"]\n".to_vec()
    );
}

#[test]
fn request_escapes_as_json_does() {
    let bytes = encode("C:\\proj", &strings(&["say \"hi\"", "tab\there", "\u{1}"]));
    assert_eq!(
        bytes,
        b"[\"--work-dir\",\"C:\\\\proj\",\"say \\\"hi\\\"\",\"tab\\there\",\"\\u0001\"]\n".to_vec()
    );
}

#[test]
fn request_keeps_text_outside_ascii() {
    let bytes = encode("/home/zo\u{eb}", &strings(&["\u{2713}"]));
    assert_eq!(
        String::from_utf8(bytes).unwrap(),
        "[\"--work-dir\",\"/home/zo\u{eb}\",\"\u{2713}\"]\n"
    );
}

#[test]
fn request_parses_back_to_its_items() {
    let args = strings(&["-l", "88", "--check", "a b.py", "", "--check"]);
    let bytes = encode("/work", &args);
    let (line, newline) = bytes.split_at(bytes.len() - 1);
    assert_eq!(newline, b"\n");
    let parsed: Vec<String> = serde_json::from_slice(line).unwrap();
    assert_eq!(parsed, build_request("/work", &args));
}

#[test]
fn build_request_prepends_the_working_directory() {
    assert_eq!(WORK_DIR_FLAG, "--work-dir");
    assert_eq!(
        build_request("/tmp/proj", &strings(&["--check", "foo.py"])),
        strings(&["--work-dir", "/tmp/proj", "--check", "foo.py"])
    );
    assert_eq!(build_request("", &Vec::new()), strings(&["--work-dir", ""]));
}

#[test]
fn build_request_keeps_order_and_duplicates() {
    let args = strings(&["b", "a", "b", "--work-dir", "/other", "a"]);
    let items = build_request("/here", &args);
    assert_eq!(items.len(), args.len() + 2);
    assert_eq!(items[..2], strings(&["--work-dir", "/here"])[..]);
    assert_eq!(items[2..], args[..]);
}

#[test]
fn frame_line_appends_one_newline() {
    assert_eq!(frame_line(""), b"\n".to_vec());
    assert_eq!(frame_line("[]"), b"[]\n".to_vec());
    assert_eq!(frame_line("a\n"), b"a\n\n".to_vec());
    assert_eq!(frame_line("\u{e9}"), vec![0xc3, 0xa9, b'\n']);
}
