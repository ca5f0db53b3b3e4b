use html2md::{parse_html_custom, Handle, NodeData, StructuredPrinter, TagHandler, TagHandlerFactory};
use html2md_confluence::link::{LinkHandler, LinkHandlerFactory, LinkHandlerUrlBuilder};
use html2md_confluence::{
    Attribute, ConfluenceHandler, ConfluencePageId, ConfluenceServer, JiraServer, Node,
    ParseOptions,
};
use quick_xml::events::Event;
use quick_xml::reader::Reader;
use quick_xml::writer::Writer;
use std::collections::HashMap;
use std::str::FromStr;

fn to_node(handle: &Handle) -> Node {
    let children: Vec<Node> = handle.children.borrow().iter().map(to_node).collect();
    match handle.data {
        NodeData::Element { ref name, ref attrs, .. } => Node::element(
            name.local.to_string(),
            attrs
                .borrow()
                .iter()
                .map(|attr| Attribute::new(attr.name.local.to_string(), attr.value.to_string()))
                .collect(),
            children,
        ),
        NodeData::Text { ref contents } => Node::text(contents.borrow().to_string()),
        _ => Node::other(children),
    }
}

struct Adapter {
    handler: ConfluenceHandler,
}

impl TagHandler for Adapter {
    fn handle(&mut self, tag: &Handle, printer: &mut StructuredPrinter) {
        self.handler.handle(&to_node(tag), printer);
    }

    fn after_handle(&mut self, printer: &mut StructuredPrinter) {
        assert!(self.handler.can_leave(printer));
        self.handler.after_handle(printer);
    }

    fn skip_descendants(&self) -> bool {
        self.handler.skip_descendants()
    }
}

struct LinkAdapter {
    handler: LinkHandler,
}

impl TagHandler for LinkAdapter {
    fn handle(&mut self, tag: &Handle, printer: &mut StructuredPrinter) {
        self.handler.handle(&to_node(tag), printer);
    }

    fn after_handle(&mut self, printer: &mut StructuredPrinter) {
        assert!(self.handler.can_leave(printer));
        self.handler.after_handle(printer);
    }

    fn skip_descendants(&self) -> bool {
        self.handler.skip_descendants()
    }
}

fn factory_for(options: &ParseOptions, element: &'static str) -> Box<dyn TagHandlerFactory> {
    let options = options.clone();
    Box::new(move || Adapter {
        handler: options.instantiate(element).unwrap(),
    })
}

fn remove_cdata(source: &str) -> String {
    let mut reader = Reader::from_str(source);
    let mut buffer = Vec::new();
    let mut writer = Writer::new(&mut buffer);
    let mut buf = Vec::with_capacity(2048);
    loop {
        let event = match reader.read_event_into(&mut buf).unwrap() {
            Event::CData(text) => Event::Text(text.escape().unwrap()),
            Event::Eof => break,
            other_event => other_event,
        };
        writer.write_event(event.borrow()).unwrap();
    }
    String::from_utf8_lossy(&buffer).into_owned()
}

fn parse_confluence(source: &str, options: &ParseOptions) -> String {
    let mut handlers: HashMap<String, Box<dyn TagHandlerFactory>> = HashMap::new();
    for element in [
        "ac:structured-macro",
        "ac:parameter",
        "ac:emoticon",
        "ac:image",
        "ac:link",
    ] {
        handlers.insert(String::from(element), factory_for(options, element));
    }
    parse_html_custom(&remove_cdata(source), &handlers)
}

fn parse_links(source: &str) -> String {
    let factory = LinkHandlerFactory::with_url_builder(LinkHandlerUrlBuilder::new(
        ConfluenceServer::from_str("https://example.com/confluence").ok(),
        Some("CONFL".to_string()),
        Some(ConfluencePageId::from(1337)),
    ));
    let mut handlers: HashMap<String, Box<dyn TagHandlerFactory>> = HashMap::new();
    handlers.insert(
        String::from("ac:link"),
        Box::new(move || LinkAdapter {
            handler: factory.instantiate(),
        }),
    );
    parse_html_custom(source, &handlers)
}

fn jira_options() -> ParseOptions {
    ParseOptions::default().with_jira_server(
        "144880e9-a1111-333f-9412-ed999a9999fa".to_string(),
        JiraServer::from_str("http://jira.atlassian.com").unwrap(),
    )
}

#[test]
fn test_tick() {
    let options = ParseOptions::default();
    let md = parse_confluence(r#"<ac:emoticon ac:name="tick"/>"#, &options);
    assert_eq!(md, ":white_check_mark:");
}

#[test]
fn test_laugh() {
    let options = ParseOptions::default();
    let md = parse_confluence(r#"<ac:emoticon ac:name="laugh"/>"#, &options);
    assert_eq!(md, ":smiley:");
}

#[test]
fn test_link_ri_page() {
    let md = parse_links(
        r#"
<ac:link>
<ri:page ri:content-title="Page Title" />
<ac:plain-text-link-body>Link to another Confluence Page</ac:plain-text-link-body>
</ac:link>
"#,
    );
    assert_eq!(
        md,
        "[Link to another Confluence Page](https://example.com/confluence/display/CONFL/Page%20Title)"
    );
}

#[test]
fn test_link_ri_attachment() {
    let md = parse_links(
        r#"
<ac:link>
<ri:attachment ri:filename="atlassian_logo.gif" />
<ac:plain-text-link-body>Link to a Confluence Attachment</ac:plain-text-link-body>
</ac:link>
"#,
    );
    assert_eq!(
        md,
        "[Link to a Confluence Attachment](https://example.com/confluence/download/attachments/1337/atlassian_logo.gif)"
    );
}

#[test]
fn test_link_anchor_same_page() {
    let md = parse_links(
        r#"
<ac:link ac:anchor="anchor">
<ac:plain-text-link-body>Anchor Link</ac:plain-text-link-body>
</ac:link>
"#,
    );
    assert_eq!(md, "[Anchor Link](#anchor)");
}

#[test]
fn test_link_anchor_another_page() {
    let md = parse_links(
        r#"
<ac:link ac:anchor="anchor">
<ri:page ri:content-title="pagetitle"/>
<ac:plain-text-link-body>Anchor Link</ac:plain-text-link-body>
</ac:link>
"#,
    );
    assert_eq!(
        md,
        "[Anchor Link](https://example.com/confluence/display/CONFL/pagetitle#anchor)"
    );
}

#[test]
fn test_link_user_name() {
    let md = parse_links(
        r#"
<ac:link>
<ri:user ri:username="someuser"/>
<ac:plain-text-link-body>User Link</ac:plain-text-link-body>
</ac:link>
"#,
    );
    assert_eq!(
        md,
        "[User Link](https://example.com/confluence/users/viewuserprofile.action?username=someuser)"
    );
}

#[test]
fn test_link_ri_page_with_rich_text_body() {
    let md = parse_links(
        r#"
<ac:link>
<ri:page ri:content-title="Page Title" />
<ac:link-body><b>Link to another Confluence Page<b></ac:link-body>
</ac:link>
"#,
    );
    assert_eq!(
        md,
        "[**Link to another Confluence Page**](https://example.com/confluence/display/CONFL/Page%20Title)"
    );
}

#[test]
fn test_with_title() {
    let options = ParseOptions::default();
    let md = parse_confluence(
        r#"
<ac:structured-macro ac:name="expand">
  <ac:parameter ac:name="title">Click Me</ac:parameter>
  <ac:rich-text-body>
    <p>
      <span>This is </span> <em>important</em> <span>information.</span>
    </p>
  </ac:rich-text-body>
</ac:structured-macro>
"#,
        &options,
    );
    assert_eq!(
        md,
        "\
<details><summary>Click Me</summary>

This is *important* information.

</details>"
    );
}

#[test]
fn test_without_title() {
    let options = ParseOptions::default();
    let md = parse_confluence(
        r#"
<ac:structured-macro ac:name="expand">
  <ac:rich-text-body>
    <p>
      <span>This is </span> <em>important</em> <span>information.</span>
    </p>
  </ac:rich-text-body>
</ac:structured-macro>
"#,
        &options,
    );
    assert_eq!(
        md,
        "\
<details><summary>Click here to expand...</summary>

This is *important* information.

</details>"
    );
}

#[test]
fn test_info_with_title() {
    let options = ParseOptions::default();
    let md = parse_confluence(
        r#"
<ac:structured-macro ac:name="info">
  <ac:parameter ac:name="icon">false</ac:parameter>
  <ac:parameter ac:name="title">Some info</ac:parameter>
  <ac:rich-text-body>
    <p>
      <span>This is </span> <em>important</em> <span>information.</span>
    </p>
  </ac:rich-text-body>
</ac:structured-macro>
"#,
        &options,
    );
    assert_eq!(
        md,
        "\
> [!IMPORTANT]
> **Some info**
>
> This is *important* information.
>
>"
    );
}

#[test]
fn test_note_without_title() {
    let options = ParseOptions::default();
    let md = parse_confluence(
        r#"
<ac:structured-macro ac:name="note">
  <ac:parameter ac:name="icon">true</ac:parameter>
  <ac:rich-text-body>
<p>
      <span>This is </span> <em>important</em> <span>information.</span>
    </p>
  </ac:rich-text-body>
</ac:structured-macro>
"#,
        &options,
    );
    assert_eq!(
        md,
        "\
> [!NOTE]
>
> This is *important* information.
>
>"
    );
}

#[test]
fn test_jql_query() {
    let md = parse_confluence(
        r#"
  <ac:structured-macro ac:name="jira">
  <ac:parameter ac:name="columns">key,summary,type,created,assignee,status</ac:parameter>
  <ac:parameter ac:name="server">Atlassian JIRA</ac:parameter>
  <ac:parameter ac:name="serverId">144880e9-a1111-333f-9412-ed999a9999fa</ac:parameter>
    <ac:parameter ac:name="jqlQuery">project = CONF AND component = documentation AND resolution = unresolved</ac:parameter>
  </ac:structured-macro>"#,
        &jira_options(),
    );
    assert_eq!(
        md,
        "[`project = CONF AND component = documentation AND resolution = unresolved`](http://jira.atlassian.com/issues/?jql=project%20%3D%20CONF%20AND%20component%20%3D%20documentation%20AND%20resolution%20%3D%20unresolved)"
    );
}

#[test]
fn test_issue_key() {
    let md = parse_confluence(
        r#"
  <ac:structured-macro ac:name="jira">
  <ac:parameter ac:name="columns">key,summary,type,created,assignee,status</ac:parameter>
  <ac:parameter ac:name="server">Atlassian JIRA</ac:parameter>
  <ac:parameter ac:name="serverId">144880e9-a1111-333f-9412-ed999a9999fa</ac:parameter>
  <ac:parameter ac:name="key">CONF-1234</ac:parameter>
  </ac:structured-macro>"#,
        &jira_options(),
    );
    assert_eq!(
        md,
        "[CONF-1234](http://jira.atlassian.com/browse/CONF-1234)"
    );
}

#[test]
fn test() {
    let options = ParseOptions::default();
    let md = parse_confluence(
        r#"
 <ac:structured-macro ac:name="status">
    <ac:parameter ac:name="colour">Green</ac:parameter>
    <ac:parameter ac:name="title">On track</ac:parameter>
    <ac:parameter ac:name="subtle">true</ac:parameter>
</ac:structured-macro>
"#,
        &options,
    );
    assert_eq!(md, "On track");
}

#[test]
fn link_text_does_not_change_the_target() {
    let options = ParseOptions::default()
        .with_confluence_server(ConfluenceServer::from_str("https://h/c").unwrap())
        .with_default_space_key("CONFL".to_string());
    let plain = parse_confluence(
        r#"<ac:link><ri:page ri:content-title="Page Title"/><ac:plain-text-link-body>text</ac:plain-text-link-body></ac:link>"#,
        &options,
    );
    assert_eq!(plain, "[text](https://h/c/display/CONFL/Page%20Title)");
    let rich = parse_confluence(
        r#"<ac:link><ri:page ri:content-title="Page Title"/><ac:link-body><em>other</em> words</ac:link-body></ac:link>"#,
        &options,
    );
    assert_eq!(rich, "[*other* words](https://h/c/display/CONFL/Page%20Title)");
}

#[test]
fn unknown_emoticon_renders_nothing() {
    let options = ParseOptions::default();
    let md = parse_confluence(r#"<ac:emoticon ac:name="nonexistent"/>"#, &options);
    assert_eq!(md, "");
    let md = parse_confluence(
        r#"<p>a<ac:emoticon ac:name="nonexistent"></ac:emoticon>b</p>"#,
        &options,
    );
    assert_eq!(md, "ab");
}

#[test]
fn query_takes_precedence_over_key() {
    let md = parse_confluence(
        r#"<ac:structured-macro ac:name="jira"><ac:parameter ac:name="serverId">144880e9-a1111-333f-9412-ed999a9999fa</ac:parameter><ac:parameter ac:name="key">Y-1</ac:parameter><ac:parameter ac:name="jqlQuery">x</ac:parameter></ac:structured-macro>"#,
        &jira_options(),
    );
    assert_eq!(md, "[`x`](http://jira.atlassian.com/issues/?jql=x)");
}

#[test]
fn unregistered_issue_server_renders_nothing() {
    let md = parse_confluence(
        r#"<p>before</p><ac:structured-macro ac:name="jira"><ac:parameter ac:name="serverId">unknown</ac:parameter><ac:parameter ac:name="key">CONF-1</ac:parameter></ac:structured-macro><p>after</p>"#,
        &jira_options(),
    );
    assert_eq!(md, "before\n\nafter");
}

#[test]
fn unknown_macro_renders_nothing() {
    let options = ParseOptions::default();
    let md = parse_confluence(
        r#"<p>before</p><ac:structured-macro ac:name="toc"><ac:parameter ac:name="depth">2</ac:parameter><ac:rich-text-body><p>inside</p></ac:rich-text-body></ac:structured-macro><p>after</p>"#,
        &options,
    );
    assert_eq!(md, "before\n\nafter");
}

#[test]
fn image_with_attachment_and_url() {
    let options = ParseOptions::default()
        .with_confluence_server(ConfluenceServer::from_str("https://h/c").unwrap())
        .with_default_page_id(ConfluencePageId::from(1337));
    let md = parse_confluence(
        r#"<ac:image ac:title="Logo"><ri:attachment ri:filename="a b.gif"/></ac:image>"#,
        &options,
    );
    assert_eq!(md, "![Logo](https://h/c/download/attachments/1337/a%20b.gif)");
    let md = parse_confluence(
        r#"<ac:image ac:alt="Alt"><ri:url ri:value="https://example.com/x.png"/></ac:image>"#,
        &ParseOptions::default(),
    );
    assert_eq!(md, "![Alt](https://example.com/x.png)");
}

#[test]
fn image_without_page_is_left_out() {
    let md = parse_confluence(
        r#"<p>a</p><ac:image><ri:attachment ri:filename="logo.gif"/></ac:image>"#,
        &ParseOptions::default(),
    );
    assert_eq!(md, "a");
}

#[test]
fn link_without_configuration_has_empty_target() {
    let md = parse_confluence(
        r#"<ac:link><ri:page ri:content-title="Page Title"/><ac:plain-text-link-body>text</ac:plain-text-link-body></ac:link>"#,
        &ParseOptions::default(),
    );
    assert_eq!(md, "[text]()");
}

#[test]
fn cdata_body_becomes_text() {
    let md = parse_confluence(
        r#"<ac:link ac:anchor="top"><ac:plain-text-link-body><![CDATA[Up & away]]></ac:plain-text-link-body></ac:link>"#,
        &ParseOptions::default(),
    );
    assert_eq!(md, "[Up & away](#top)");
}

#[test]
fn alert_quotes_every_line_of_its_body() {
    let md = parse_confluence(
        r#"<ac:structured-macro ac:name="warning"><ac:rich-text-body><p>one</p><p>two</p></ac:rich-text-body></ac:structured-macro>"#,
        &ParseOptions::default(),
    );
    assert_eq!(md, "> [!WARNING]\n>\n> one\n>\n>\n>\n> two\n>\n>");
    let md = parse_confluence(
        r#"<ac:structured-macro ac:name="tip"><ac:rich-text-body><p>one</p></ac:rich-text-body></ac:structured-macro>"#,
        &ParseOptions::default(),
    );
    assert_eq!(md, "> [!TIP]\n>\n> one\n>\n>");
}

#[test]
fn query_label_stands_between_single_backticks() {
    let options = ParseOptions::default().with_jira_server(
        "s1".to_string(),
        JiraServer::from_str("http://j").unwrap(),
    );
    let md = parse_confluence(
        r#"<ac:structured-macro ac:name="jira"><ac:parameter ac:name="serverId">s1</ac:parameter><ac:parameter ac:name="jqlQuery">x</ac:parameter><ac:parameter ac:name="key">Y-1</ac:parameter></ac:structured-macro>"#,
        &options,
    );
    assert_eq!(md, "[`x`](http://j/issues/?jql=x)");
}
