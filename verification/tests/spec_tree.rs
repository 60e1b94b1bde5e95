use mapcopy::filemap::FileMap;
use mapcopy::spectree::{load_spec_text, mode_number, ScanOutcome, SpecLoad};

const SPEC: &str = r#"<tree xmlns="urn:spec">
  <directory name="/etc/postfix" user="root" group="root" mode="755"
             default_file_user="root" default_file_group="postfix" default_file_mode="640">
    <file name="main.cf" user="root" group="root" mode="644"/>
    <directory name="sasl" mode="x">
      <file name="passwd" user="postfix" group="postfix" mode="600"/>
    </directory>
  </directory>
</tree>"#;

#[test]
fn a_specification_is_read_into_the_map() {
    let mut m = FileMap::new();
    match load_spec_text(&mut m, SPEC) {
        SpecLoad::Read(ScanOutcome::Done) => {}
        other => panic!("unexpected {:?}", other),
    }
    assert_eq!(m.len(), 4);
    let keys: Vec<&str> = (0..m.len()).map(|i| m.entry(i).0.as_str()).collect();
    assert_eq!(keys, vec!["/etc/postfix", "/etc/postfix/main.cf", "/etc/postfix/sasl", "/etc/postfix/sasl/passwd"]);

    let top = m.get("/etc/postfix").unwrap();
    assert_eq!((top.file_level, top.file_type, top.file_mode), (0, 'd', 755));
    assert_eq!(top.default_file_group, "postfix");

    let main = m.get("/etc/postfix/main.cf").unwrap();
    assert_eq!((main.file_level, main.file_type, main.file_mode), (0, 'f', 644));
    assert_eq!(main.default_file_mode, 640);

    let sasl = m.get("/etc/postfix/sasl").unwrap();
    assert_eq!((sasl.file_level, sasl.file_mode), (1, 0));
    assert_eq!((sasl.file_user.as_str(), sasl.default_file_user.as_str()), ("", "root"));

    let pw = m.get("/etc/postfix/sasl/passwd").unwrap();
    assert_eq!((pw.file_level, pw.file_mode, pw.default_file_mode), (1, 600, 640));
}

#[test]
fn specification_errors() {
    let mut m = FileMap::new();
    let text = r#"<tree xmlns="u"><file name="x"/></tree>"#;
    match load_spec_text(&mut m, text) {
        SpecLoad::Read(ScanOutcome::Failed(e)) => assert_eq!(e, "map_copy: child of XML tree was NOT a directory: 'file'"),
        other => panic!("unexpected {:?}", other),
    }
    let text = r#"<tree xmlns="u"><directory/></tree>"#;
    match load_spec_text(&mut m, text) {
        SpecLoad::Read(ScanOutcome::Failed(e)) => assert_eq!(e, "map_copy: directory element did NOT have name attribute!"),
        other => panic!("unexpected {:?}", other),
    }
    let text = r#"<tree xmlns="u"><directory name="/a"><directory name="b"><link name="c"/></directory></directory></tree>"#;
    match load_spec_text(&mut m, text) {
        SpecLoad::Read(ScanOutcome::Failed(e)) => assert_eq!(
            e,
            "calling scan_tree: scan_tree: level: 0 (recursive result): 'scan_tre: ERROR Unexpected node name: 'link' '"
        ),
        other => panic!("unexpected {:?}", other),
    }
    // what was read before the failure stays
    assert!(m.contains_key("/a/b"));
    let text = r#"<tree xmlns="u"><directory name="/q"><file name="f" user="u"/></directory></tree>"#;
    assert!(matches!(load_spec_text(&mut m, text), SpecLoad::Read(ScanOutcome::Aborted)));
    assert!(matches!(load_spec_text(&mut m, "<tree"), SpecLoad::Unparsed));
}

#[test]
fn modes_in_the_specification() {
    assert_eq!(mode_number("0640"), 640);
    assert_eq!(mode_number("rw-"), 0);
}
