use rusqlite::Connection;
use sad_xml_sql::dump::dump_db_to_xml_bytes;
use sad_xml_sql::md_populate::populate_db;
use sad_xml_sql::md_render::render_document_from_db;
use sad_xml_sql::md_text::{
    create_hardcoded_map, create_styles, create_view_packet_title, lookup_section_number, make_markdown_linkable_text,
    make_mermaid_linkable_text,
};
use sad_xml_sql::populate::{db_populate_from_include_xml, db_populate_from_xml, PopulateError, RecordError};
use sad_xml_sql::retrieval::{
    get_component_by_name, get_include_url_by_file_id, get_local_file_id, get_vector_of_component_names_sorted,
    get_viewpacket_by_title,
};
use sad_xml_sql::update::db_create_in_mem_db;
use sad_xml_sql::xml::read_xml_document;

const DOCUMENT: &str = r#"<?xml version="1.0"?>
<SoftwareArchitectureDocumentation>
  <Document><FileId>3</FileId><Title>Doc</Title><Issue>1</Issue><Summary>Sum</Summary></Document>
  <Component Id="0.0.0.1" Name="server"><Purpose>Serve</Purpose><Summary>The server</Summary></Component>
  <Component Id="0.0.0.2" Name="Client"><Purpose>Ask</Purpose><Summary>The client</Summary><TeamId>0.0.1.0</TeamId></Component>
  <ComponentRelation Id="0.0.0.5" SortOrder="1"><ComponentAId>0.0.0.1</ComponentAId><ComponentBId>0.0.0.2</ComponentBId><Key>top</Key><PropertyOfRelation>p</PropertyOfRelation><Style>Decomposition</Style></ComponentRelation>
  <ViewPacket Id="0.0.0.9" ViewType="Module" ViewStyle="Decomposition" SortOrder="1"><Title>Top</Title><Introduction>Intro</Introduction><ContextModelKey>ctx</ContextModelKey><PrimaryDisplayKey>top</PrimaryDisplayKey><ComponentId>0.0.0.1</ComponentId></ViewPacket>
  <Behavior Id="0.0.0.7" SortOrder="1"><ViewPacketId>0.0.0.9</ViewPacketId><Description>d</Description><DiagramKey>k</DiagramKey></Behavior>
  <Team Id="0.0.1.0" Name="Blue"><Description>team</Description></Team>
  <Include url="http://example.org/other.xml">other.xml</Include>
</SoftwareArchitectureDocumentation>
"#;

fn loaded() -> (Connection, Vec<String>) {
    let mut conn = Connection::open_in_memory().unwrap();
    db_create_in_mem_db(&mut conn).unwrap();
    let doc = read_xml_document(DOCUMENT.as_bytes()).unwrap();
    let names = db_populate_from_xml(&mut conn, &doc, "main.xml").unwrap();
    (conn, names)
}

#[test]
fn malformed_xml_is_refused() {
    assert!(read_xml_document(b"<a><b></a>").is_none());
    assert!(read_xml_document(b"").is_none());
}

#[test]
fn populate_fills_the_tables() {
    let (conn, names) = loaded();
    assert_eq!(names, vec!["other.xml".to_string()]);
    assert_eq!(get_local_file_id(&conn).unwrap(), 3);
    let client = get_component_by_name(&conn, "Client".to_string()).unwrap();
    assert_eq!(client.id, 2);
    assert_eq!(client.team_id, 256);
    assert_eq!(client.file_id, 3);
    assert_eq!(client.summary, "The client");
    let vp = get_viewpacket_by_title(&conn, "Top").unwrap();
    assert_eq!(vp.viewpacket_id, 9);
    assert_eq!(vp.component_id, 1);
    assert_eq!(vp.primary_display_key, "top");
    assert_eq!(get_vector_of_component_names_sorted(&conn).unwrap(), vec!["Client".to_string(), "server".to_string()]);
}

#[test]
fn populate_reports_the_element_that_cannot_be_read() {
    let mut conn = Connection::open_in_memory().unwrap();
    db_create_in_mem_db(&mut conn).unwrap();
    let text = "<SoftwareArchitectureDocumentation><Component Id=\"0.0.0.1\"><Purpose/><Summary/></Component></SoftwareArchitectureDocumentation>";
    let doc = read_xml_document(text.as_bytes()).unwrap();
    let r = db_populate_from_xml(&mut conn, &doc, "f.xml");
    assert!(matches!(r, Err(PopulateError::Record("Component", RecordError::MissingAttribute("Name")))));
}

#[test]
fn test_dump_db_to_xml_xml_structure() {
    let mut conn = Connection::open_in_memory().unwrap();
    db_create_in_mem_db(&mut conn).unwrap();
    let bytes = dump_db_to_xml_bytes(&conn).unwrap();
    let root = xmltree::Element::parse(bytes.as_slice()).unwrap();
    assert_eq!(root.name, "SoftwareArchitectureDocumentation");
}

#[test]
fn dump_holds_the_records() {
    let (conn, _) = loaded();
    let bytes = dump_db_to_xml_bytes(&conn).unwrap();
    let root = xmltree::Element::parse(bytes.as_slice()).unwrap();
    assert_eq!(root.name, "SoftwareArchitectureDocumentation");
    let count = |name: &str| {
        root.children
            .iter()
            .filter(|n| matches!(n, xmltree::XMLNode::Element(e) if e.name == name))
            .count()
    };
    assert_eq!(count("Component"), 2);
    assert_eq!(count("ViewPacket"), 1);
    assert_eq!(count("Behavior"), 1);
    assert_eq!(count("ComponentRelation"), 1);
}

#[test]
fn view_packet_titles() {
    assert_eq!(create_view_packet_title("Module", "Layered", "T", 2), "Module Layered view packet 1.4.2: T");
    assert_eq!(create_view_packet_title("CnC", "SharedData", "Data", 1), "CnC SharedData view packet 2.5.1: Data");
    assert_eq!(create_view_packet_title("Allocation", "Testing", "x", -1), "Allocation Testing view packet 3.4.-1: x");
}

#[test]
fn linkable_texts() {
    assert_eq!(make_mermaid_linkable_text("a b  c".to_string()), "abc");
    assert_eq!(
        make_markdown_linkable_text("Module Decomposition view packet 1.1.1: Top (\"x\", y's)".to_string()),
        "module-decomposition-view-packet-111-top-x-ys"
    );
    assert_eq!(make_markdown_linkable_text("ÄB".to_string()), "äb");
}

const MD_DOCUMENT: &str = r#"<SoftwareArchitectureDocumentation>
  <Component Id="1" Name="Web Server"><Summary>Serves</Summary></Component>
  <Component Id="2" Name="Client"><Summary>Asks</Summary></Component>
  <ComponentRelation Id="1" SortOrder="1"><ComponentAId>1</ComponentAId><ComponentBId>2</ComponentBId><Key>top</Key><PropertyOfRelation>p</PropertyOfRelation></ComponentRelation>
  <ViewPacket Id="5" ViewType="Module" ViewStyle="Decomposition" SortOrder="1"><Title>Top</Title><Introduction/><ContextModelKey/><PrimaryDisplayKey>top</PrimaryDisplayKey><ComponentId>1</ComponentId></ViewPacket>
</SoftwareArchitectureDocumentation>
"#;

#[test]
fn markdown_document() {
    let mut conn = Connection::open_in_memory().unwrap();
    let doc = read_xml_document(MD_DOCUMENT.as_bytes()).unwrap();
    populate_db(&mut conn, &doc).unwrap();
    let md = render_document_from_db(&conn).unwrap();
    assert!(md.starts_with(
        "# Software Architecture Document\n\n## Module\n\n### Module Decomposition view packet 1.1.1: Top\n\n#### 1.1.1: Primary presentation\n\n```mermaid\n  graph LR;\n"
    ));
    assert!(md.contains("    WebServer[Web Server]---Client[Client]\n"));
    assert!(md.contains("* Web Server: Serves\n"));
    assert!(md.contains("\n## CnC\n\n"));
    assert!(md.ends_with("## Allocation\n\n"));
}

#[test]
fn section_headings_are_the_link_titles() {
    let mut conn = Connection::open_in_memory().unwrap();
    let doc = read_xml_document(MD_DOCUMENT.as_bytes()).unwrap();
    populate_db(&mut conn, &doc).unwrap();
    let md = render_document_from_db(&conn).unwrap();
    let heading = format!("### {}\n\n", create_view_packet_title("Module", "Decomposition", "Top", 1));
    assert!(md.contains(&heading));
}

#[test]
fn markdown_of_empty_tables() {
    let mut conn = Connection::open_in_memory().unwrap();
    let doc = read_xml_document(b"<SoftwareArchitectureDocumentation/>").unwrap();
    populate_db(&mut conn, &doc).unwrap();
    let md = render_document_from_db(&conn).unwrap();
    assert_eq!(md, "# Software Architecture Document\n\n## Module\n\n## CnC\n\n## Allocation\n\n");
}

const INCLUDED: &str = r#"<SoftwareArchitectureDocumentation>
  <Document><FileId>5</FileId></Document>
  <Component Id="0.0.0.3" Name="Library"><Purpose>Lend</Purpose><Summary>Books</Summary></Component>
</SoftwareArchitectureDocumentation>
"#;

#[test]
fn included_files_take_their_file_id() {
    let (mut conn, names) = loaded();
    assert_eq!(names, vec!["other.xml".to_string()]);
    let included = read_xml_document(INCLUDED.as_bytes()).unwrap();
    db_populate_from_include_xml(&mut conn, &included, names[0].clone()).unwrap();
    assert_eq!(get_include_url_by_file_id(&conn, 5).unwrap(), "http://example.org/other.xml");
    let library = get_component_by_name(&conn, "Library".to_string()).unwrap();
    assert_eq!(library.file_id, 5);
    assert_eq!(library.id, 3);
    assert_eq!(
        get_vector_of_component_names_sorted(&conn).unwrap(),
        vec!["Client".to_string(), "Library".to_string(), "server".to_string()]
    );
}

#[test]
fn section_numbers_follow_list_positions() {
    let map = create_hardcoded_map();
    let styles = create_styles();
    assert_eq!(map.len(), 16);
    for (t, (view_type, type_styles)) in styles.iter().enumerate() {
        assert_eq!(lookup_section_number(&map, view_type), Some(t as i32 + 1));
        for (i, style) in type_styles.iter().enumerate() {
            assert_eq!(lookup_section_number(&map, style), Some(i as i32 + 1));
        }
    }
    assert_eq!(lookup_section_number(&map, "Unknown"), None);
}

#[test]
fn markdown_anchors_are_lower_case_and_stable() {
    for text in ["Module Decomposition view packet 1.1.1: Top", "It's \"Quoted\" (A, B)", "already-an-anchor", ""] {
        let anchor = make_markdown_linkable_text(text.to_string());
        assert!(anchor.len() <= text.len());
        assert!(!anchor.chars().any(|c| c.is_ascii_uppercase() || " ():,.'\"".contains(c)));
        assert_eq!(make_markdown_linkable_text(anchor.clone()), anchor);
    }
    assert_eq!(
        make_markdown_linkable_text("Module Decomposition view packet 1.1.1: Top".to_string()),
        "module-decomposition-view-packet-111-top"
    );
}

#[test]
fn dump_text_is_the_builders_layout() {
    let (conn, _) = loaded();
    let text = String::from_utf8(dump_db_to_xml_bytes(&conn).unwrap()).unwrap();
    assert!(text.starts_with("<?xml version = \"1.0\" encoding = \"UTF-8\"?>\n<SoftwareArchitectureDocumentation"));
    assert!(text.contains("\t<Component Id=\"1\" Name=\"server\">\n\t\t<Purpose>Serve</Purpose>\n\t\t<Summary>The server</Summary>\n\t</Component>\n"));
    assert!(text.ends_with("</SoftwareArchitectureDocumentation>\n"));
}
