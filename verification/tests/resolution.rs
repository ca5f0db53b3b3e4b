use html2md_confluence::link::LinkHandlerUrlBuilder;
use html2md_confluence::text::{
    char_is_whitespace, collapse_whitespace, minify, str_eq, text_is_blank, trim_line_breaks,
};
use html2md_confluence::url::decimal_string;
use html2md_confluence::util::{get_tag_name, get_text_content};
use html2md_confluence::{
    Attribute, ConfluencePageId, ConfluenceServer, JiraServer, JiraServerMap, Node,
};
use std::str::FromStr;

fn element(name: &str, attrs: &[(&str, &str)], children: Vec<Node>) -> Node {
    Node::element(
        name.to_string(),
        attrs
            .iter()
            .map(|(name, value)| Attribute::new(name.to_string(), value.to_string()))
            .collect(),
        children,
    )
}

fn text(contents: &str) -> Node {
    Node::text(contents.to_string())
}

fn full_builder() -> LinkHandlerUrlBuilder {
    LinkHandlerUrlBuilder::new(
        ConfluenceServer::from_str("https://h/c").ok(),
        Some("DEF".to_string()),
        Some(ConfluencePageId::from(1337)),
    )
}

#[test]
fn attachment_url_encodes_the_filename() {
    let server = ConfluenceServer::from_str("https://h/c").unwrap();
    let url = server.attachment_url(&ConfluencePageId::from(1337), "a b.gif");
    assert_eq!(url, "https://h/c/download/attachments/1337/a%20b.gif");
    assert!(url.ends_with("download/attachments/1337/a%20b.gif"));
    assert_eq!(
        full_builder().url_from_attachment_filename("a b.gif"),
        Some("https://h/c/download/attachments/1337/a%20b.gif".to_string())
    );
}

#[test]
fn urls_are_built_from_the_base_url() {
    let server = ConfluenceServer::new("https://h/c");
    assert_eq!(
        server.user_url_with_name("j doe"),
        "https://h/c/users/viewuserprofile.action?username=j%20doe"
    );
    assert_eq!(
        server.user_url_with_key("8a/b"),
        "https://h/c/users/viewuserprofile.action?userkey=8a%2Fb"
    );
    assert_eq!(
        server.page_url_with_space_and_title("MY SPACE", "A/B & C"),
        "https://h/c/display/MY%20SPACE/A%2FB%20%26%20C"
    );
    let jira = JiraServer::new("http://j");
    assert_eq!(jira.issue_url("A B-1"), "http://j/browse/A B-1");
    assert_eq!(jira.jql_url("a=b&c"), "http://j/issues/?jql=a%3Db%26c");
    assert_eq!(ConfluenceServer::new("").user_url_with_name(""), "/users/viewuserprofile.action?username=");
}

#[test]
fn percent_encoding_keeps_unreserved_bytes_only() {
    let server = ConfluenceServer::new("");
    let encoded = |text: &str| {
        server
            .user_url_with_key(text)
            .strip_prefix("/users/viewuserprofile.action?userkey=")
            .unwrap()
            .to_string()
    };
    assert_eq!(
        encoded("ABCXYZabcxyz0189-._~"),
        "ABCXYZabcxyz0189-._~"
    );
    assert_eq!(encoded(" !\"#$%&'()*+,/"), "%20%21%22%23%24%25%26%27%28%29%2A%2B%2C%2F");
    assert_eq!(encoded(":;<=>?@[\\]^`{|}"), "%3A%3B%3C%3D%3E%3F%40%5B%5C%5D%5E%60%7B%7C%7D");
    assert_eq!(encoded("\u{0}\n\u{7f}"), "%00%0A%7F");
    assert_eq!(encoded("ä€👾"), "%C3%A4%E2%82%AC%F0%9F%91%BE");
    assert_eq!(encoded(""), "");
}

#[test]
fn page_ids_are_written_in_decimal() {
    assert_eq!(ConfluencePageId::from(0).to_string(), "0");
    assert_eq!(ConfluencePageId::from(7).to_string(), "7");
    assert_eq!(ConfluencePageId::from(10).to_string(), "10");
    assert_eq!(ConfluencePageId::new(1337).to_string(), "1337");
    assert_eq!(ConfluencePageId::from(9876543210).to_string(), "9876543210");
    assert_eq!(
        ConfluencePageId::from(usize::MAX).to_string(),
        format!("{}", usize::MAX)
    );
    assert_eq!(decimal_string(1000), "1000");
    assert_eq!(decimal_string(109), "109");
}

#[test]
fn page_ids_are_read_from_decimal() {
    assert_eq!(ConfluencePageId::from_str("1337").unwrap().to_string(), "1337");
    assert_eq!(ConfluencePageId::from_str("0").unwrap().to_string(), "0");
    assert_eq!(ConfluencePageId::from_str("+5").unwrap().to_string(), "5");
    assert_eq!(ConfluencePageId::from_str("007").unwrap().to_string(), "7");
    assert_eq!(
        ConfluencePageId::from_str(&format!("{}", usize::MAX)).unwrap().to_string(),
        format!("{}", usize::MAX)
    );
    assert!(ConfluencePageId::from_str("+").is_err());
    assert!(ConfluencePageId::from_str("++1").is_err());
    assert!(ConfluencePageId::from_str(" 1").is_err());
    assert!(ConfluencePageId::from_str("1_000").is_err());
    assert!(ConfluencePageId::from_str("\u{661}").is_err());
    assert!(ConfluencePageId::from_str("").is_err());
    assert!(ConfluencePageId::from_str("12a").is_err());
    assert!(ConfluencePageId::from_str("-1").is_err());
    assert!(ConfluencePageId::from_str("99999999999999999999999999").is_err());
}

#[test]
fn page_resolution_prefers_the_given_space() {
    let builder = full_builder();
    assert_eq!(
        builder.resolve_page(Some("SP"), "T"),
        Some("https://h/c/display/SP/T".to_string())
    );
    assert_eq!(
        builder.resolve_page(None, "T"),
        Some("https://h/c/display/DEF/T".to_string())
    );
    assert_eq!(
        builder.url_from_page_space_and_title("SP", "T"),
        Some("https://h/c/display/SP/T".to_string())
    );
    assert_eq!(
        builder.url_from_page_title("T"),
        Some("https://h/c/display/DEF/T".to_string())
    );
    let no_default = LinkHandlerUrlBuilder::new(ConfluenceServer::from_str("https://h/c").ok(), None, None);
    assert_eq!(
        no_default.resolve_page(Some("SP"), "T"),
        Some("https://h/c/display/SP/T".to_string())
    );
    assert_eq!(no_default.resolve_page(None, "T"), None);
    assert_eq!(no_default.url_from_page_title("T"), None);
    let no_server = LinkHandlerUrlBuilder::new(None, Some("DEF".to_string()), None);
    assert_eq!(no_server.resolve_page(Some("SP"), "T"), None);
    assert_eq!(no_server.resolve_page(None, "T"), None);
    assert_eq!(no_server.url_from_page_space_and_title("SP", "T"), None);
}

#[test]
fn attachment_resolution_needs_server_and_page() {
    let no_page = LinkHandlerUrlBuilder::new(
        ConfluenceServer::from_str("https://h/c").ok(),
        Some("DEF".to_string()),
        None,
    );
    assert_eq!(no_page.url_from_attachment_filename("f"), None);
    let no_server =
        LinkHandlerUrlBuilder::new(None, None, Some(ConfluencePageId::from(1)));
    assert_eq!(no_server.url_from_attachment_filename("f"), None);
    assert_eq!(
        full_builder().url_from_attachment_filename("f"),
        Some("https://h/c/download/attachments/1337/f".to_string())
    );
}

#[test]
fn user_resolution_prefers_the_name() {
    let builder = full_builder();
    assert_eq!(
        builder.resolve_user(Some("n"), Some("k")),
        Some("https://h/c/users/viewuserprofile.action?username=n".to_string())
    );
    assert_eq!(
        builder.resolve_user(Some("n"), None),
        Some("https://h/c/users/viewuserprofile.action?username=n".to_string())
    );
    assert_eq!(
        builder.resolve_user(None, Some("k")),
        Some("https://h/c/users/viewuserprofile.action?userkey=k".to_string())
    );
    assert_eq!(builder.resolve_user(None, None), None);
    assert_eq!(
        builder.url_from_user_name("n"),
        Some("https://h/c/users/viewuserprofile.action?username=n".to_string())
    );
    assert_eq!(
        builder.url_from_user_key("k"),
        Some("https://h/c/users/viewuserprofile.action?userkey=k".to_string())
    );
    let no_server = LinkHandlerUrlBuilder::new(None, None, None);
    assert_eq!(no_server.resolve_user(Some("n"), Some("k")), None);
    assert_eq!(no_server.url_from_user_name("n"), None);
    assert_eq!(no_server.url_from_user_key("k"), None);
}

#[test]
fn references_resolve_by_element_name() {
    let builder = full_builder();
    let page = element(
        "ri:page",
        &[("ri:space-key", "SP"), ("ri:content-title", "T")],
        vec![],
    );
    assert_eq!(
        builder.resolve_reference(&page),
        Some("https://h/c/display/SP/T".to_string())
    );
    assert_eq!(
        builder.resolve_reference(&element("ri:page", &[("ri:space-key", "SP")], vec![])),
        None
    );
    assert_eq!(
        builder.resolve_reference(&element("ri:attachment", &[("ri:filename", "f")], vec![])),
        Some("https://h/c/download/attachments/1337/f".to_string())
    );
    assert_eq!(builder.resolve_reference(&element("ri:attachment", &[], vec![])), None);
    assert_eq!(
        builder.resolve_reference(&element(
            "ri:user",
            &[("ri:userkey", "k"), ("ri:username", "n")],
            vec![]
        )),
        Some("https://h/c/users/viewuserprofile.action?username=n".to_string())
    );
    assert_eq!(builder.resolve_reference(&element("ri:user", &[], vec![])), None);
    assert_eq!(
        builder.resolve_reference(&element("ri:space", &[("ri:space-key", "SP")], vec![])),
        None
    );
    assert_eq!(builder.resolve_reference(&text("ri:page")), None);
}

#[test]
fn resolving_twice_gives_the_same_url() {
    let page = element("ri:page", &[("ri:content-title", "Page Title")], vec![]);
    let same_page = element("ri:page", &[("ri:content-title", "Page Title")], vec![]);
    let first = full_builder();
    let second = first.clone();
    let url = first.resolve_reference(&page);
    assert_eq!(url, Some("https://h/c/display/DEF/Page%20Title".to_string()));
    assert_eq!(first.resolve_reference(&page), url);
    assert_eq!(second.resolve_reference(&same_page), url);
    assert_eq!(full_builder().resolve_reference(&same_page), url);

    let servers = JiraServerMap::from(&[("id", "http://j")][..]);
    let url = servers.resolve_issue("id", Some("K-1"), None);
    assert_eq!(url, Some("http://j/browse/K-1".to_string()));
    assert_eq!(servers.resolve_issue("id", Some("K-1"), None), url);
    assert_eq!(servers.clone().resolve_issue("id", Some("K-1"), None), url);
}

#[test]
fn issue_resolution_prefers_the_query() {
    let servers = JiraServerMap::from(&[("id", "http://j")][..]);
    assert_eq!(
        servers.resolve_issue("id", Some("Y-1"), Some("x y")),
        Some("http://j/issues/?jql=x%20y".to_string())
    );
    assert_eq!(
        servers.resolve_issue("id", None, Some("x")),
        Some("http://j/issues/?jql=x".to_string())
    );
    assert_eq!(
        servers.resolve_issue("id", Some("Y-1"), None),
        Some("http://j/browse/Y-1".to_string())
    );
    assert_eq!(servers.resolve_issue("id", None, None), None);
    assert_eq!(servers.resolve_issue("other", Some("Y-1"), Some("x")), None);
    assert_eq!(JiraServerMap::default().resolve_issue("id", Some("Y-1"), None), None);
}

#[test]
fn registry_keeps_one_server_per_identifier() {
    let mut servers = JiraServerMap::default();
    assert!(servers.by_id("a").is_none());
    assert!(servers.insert("a".to_string(), JiraServer::new("http://one")).is_none());
    assert!(servers.insert("b".to_string(), JiraServer::new("http://two")).is_none());
    assert_eq!(servers.by_id("a").unwrap().issue_url("K"), "http://one/browse/K");
    let previous = servers.insert("a".to_string(), JiraServer::new("http://three"));
    assert_eq!(previous.unwrap().issue_url("K"), "http://one/browse/K");
    assert_eq!(servers.by_id("a").unwrap().issue_url("K"), "http://three/browse/K");
    assert_eq!(servers.by_id("b").unwrap().issue_url("K"), "http://two/browse/K");
    assert!(servers.by_id("").is_none());
    assert!(servers.by_id("A").is_none());

    let listed = JiraServerMap::from(
        &[("a", "http://one"), ("b", "http://two"), ("a", "http://three")][..],
    );
    assert_eq!(listed.by_id("a").unwrap().issue_url("K"), "http://three/browse/K");
    assert_eq!(listed.by_id("b").unwrap().issue_url("K"), "http://two/browse/K");
    assert!(JiraServerMap::from(&[][..]).by_id("a").is_none());
}

#[test]
fn whitespace_runs_are_squeezed() {
    assert_eq!(collapse_whitespace("a   b"), "a b");
    assert_eq!(collapse_whitespace("a \n\t b  c"), "a b c");
    assert_eq!(collapse_whitespace("a b\nc"), "a b\nc");
    assert_eq!(collapse_whitespace("  "), " ");
    assert_eq!(collapse_whitespace(""), "");
    assert_eq!(collapse_whitespace("a\u{a0}\u{2003}b"), "a b");
    assert_eq!(collapse_whitespace("a\tb"), "a\tb");
    assert_eq!(collapse_whitespace("a\u{a0}b"), "a\u{a0}b");
    assert_eq!(collapse_whitespace("\n\n"), " ");
    assert_eq!(collapse_whitespace("\n"), "\n");
    assert_eq!(collapse_whitespace("  a  "), " a ");
    assert_eq!(collapse_whitespace(" a\n b \r\n\t"), " a b ");
    assert_eq!(collapse_whitespace("a\u{200b}\u{200b}b"), "a\u{200b}\u{200b}b");
    assert_eq!(collapse_whitespace("$1  $0"), "$1 $0");
    assert_eq!(collapse_whitespace("ä  ö   ü"), "ä ö ü");
}

#[test]
fn outer_line_breaks_are_dropped() {
    assert_eq!(trim_line_breaks("\n\r\na\nb\r\n"), "a\nb");
    assert_eq!(trim_line_breaks("a"), "a");
    assert_eq!(trim_line_breaks(" a \n"), " a ");
    assert_eq!(trim_line_breaks("\n \n"), " ");
    assert_eq!(trim_line_breaks("\n\r"), "");
    assert_eq!(trim_line_breaks(""), "");
    assert_eq!(trim_line_breaks("\näö\n"), "äö");
    assert_eq!(minify("\n  Some   info \n"), " Some info ");
    assert_eq!(minify("\nSome\n"), "Some");
}

#[test]
fn blank_text_is_whitespace_only() {
    assert!(text_is_blank(""));
    assert!(text_is_blank(" \t\r\n\u{b}\u{c}"));
    assert!(text_is_blank("\u{85}\u{a0}\u{1680}\u{2000}\u{200a}\u{2028}\u{2029}\u{202f}\u{205f}\u{3000}"));
    assert!(!text_is_blank(" a "));
    assert!(!text_is_blank("\u{200b}"));
    assert!(!text_is_blank("\u{feff}"));
    for c in ['\u{8}', '\u{e}', '\u{1f}', '!', '\u{84}', '\u{86}', '\u{200b}', '\u{2027}', '\u{3001}'] {
        assert!(!char_is_whitespace(c));
    }
    for code in 0..0x3100u32 {
        if let Some(c) = char::from_u32(code) {
            assert_eq!(char_is_whitespace(c), c.is_whitespace());
        }
    }
}

#[test]
fn texts_compare_by_their_characters() {
    assert!(str_eq("", ""));
    assert!(str_eq("ac:link", "ac:link"));
    assert!(!str_eq("ac:link", "ac:lin"));
    assert!(!str_eq("ac:link", "ac:linK"));
    assert!(str_eq("ä", "ä"));
    assert!(!str_eq("ä", "a"));
}

#[test]
fn text_content_collects_the_subtree() {
    let tree = element(
        "ac:parameter",
        &[("ac:name", "title")],
        vec![
            text("  \n "),
            text("Some"),
            element("b", &[], vec![text(" bold   text"), Node::other(vec![text("!")])]),
            text("\n"),
            text("\nend\n"),
        ],
    );
    assert_eq!(get_text_content(&tree), "Some bold text!end");
    assert_eq!(get_text_content(&text("   ")), "");
    assert_eq!(get_text_content(&text(" a ")), " a ");
    assert_eq!(get_text_content(&element("p", &[], vec![])), "");
    assert_eq!(get_text_content(&Node::other(vec![])), "");
}

#[test]
fn tag_name_of_elements_only() {
    assert_eq!(
        get_tag_name(&element("ac:link", &[], vec![])),
        Some("ac:link".to_string())
    );
    assert_eq!(get_tag_name(&text("ac:link")), None);
    assert_eq!(get_tag_name(&Node::other(vec![])), None);
}

fn leading_whitespace(text: &[char]) -> usize {
    text.iter().take_while(|c| char_is_whitespace(**c)).count()
}

fn squeezed(text: &[char]) -> String {
    let mut out = String::new();
    let mut at = 0;
    while at < text.len() {
        let run = leading_whitespace(&text[at..]);
        if run >= 2 {
            out.push(' ');
            at += run;
        } else {
            out.push(text[at]);
            at += 1;
        }
    }
    out
}

#[test]
fn squeezing_agrees_with_its_description_on_all_short_texts() {
    let alphabet = ['a', ' ', '\n', '\t', '\u{a0}', '\u{3000}', '\u{200b}', 'ä', '$'];
    let mut texts: Vec<Vec<char>> = vec![Vec::new()];
    let mut from = 0;
    for _ in 0..4 {
        let upto = texts.len();
        for i in from..upto {
            for c in alphabet {
                let mut longer = texts[i].clone();
                longer.push(c);
                texts.push(longer);
            }
        }
        from = upto;
    }
    assert_eq!(texts.len(), 1 + 9 + 81 + 729 + 6561);
    for text in texts {
        let given: String = text.iter().collect();
        assert_eq!(collapse_whitespace(&given), squeezed(&text));
    }
}
