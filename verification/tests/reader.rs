use cobertura_rs::{Parser, ParserError};
use quick_xml::Reader;

const ROOT_ATTRS: &str = "line-rate=\"0.5\" branch-rate=\"0.25\" lines-covered=\"10\" \
    lines-valid=\"20\" branches-covered=\"1\" branches-valid=\"4\" complexity=\"0.0\" \
    version=\"2.0.3\" timestamp=\"1700000000\"";

fn parse(input: &str) -> Result<cobertura_rs::Coverage, ParserError> {
    let mut reader = Reader::from_str(input);
    let mut parser = Parser::new();
    parser.parse(&mut reader)
}

#[test]
fn whole_document_through_the_tokenizer() {
    let input = format!(
        "<?xml version=\"1.0\"?>\n\
         <coverage {ROOT_ATTRS}>\n\
           <sources>\n\
             <source>/workspace/src</source>\n\
           </sources>\n\
           <packages>\n\
             <package name=\"p&amp;q\" line-rate=\"1.0\" branch-rate=\"1.0\" complexity=\"0.0\">\n\
               <classes>\n\
                 <class name=\"c\" filename=\"src/a.rs\" line-rate=\"1.0\" branch-rate=\"1.0\" complexity=\"0.0\">\n\
                   <lines>\n\
                     <line number=\"1\" hits=\"3\"/>\n\
                     <line number=\"2\" hits=\"0\" branch=\"true\">\n\
                       <conditions>\n\
                         <condition type=\"jump\" coverage=\"50%\"/>\n\
                       </conditions>\n\
                     </line>\n\
                   </lines>\n\
                 </class>\n\
               </classes>\n\
             </package>\n\
           </packages>\n\
         </coverage>"
    );
    let doc = parse(&input).expect("the document is well formed");
    assert_eq!(doc.sources.len(), 1);
    assert_eq!(doc.sources[0].data, "/workspace/src");
    assert_eq!(doc.packages.len(), 1);
    // The tokenizer unescapes attribute values before they reach the
    // machine.
    assert_eq!(doc.packages[0].name, "p&q");
    let class = &doc.packages[0].classes[0];
    assert_eq!(class.file_name, "src/a.rs");
    assert_eq!(class.lines.len(), 2);
    assert!(class.lines[1].branch);
    assert_eq!(class.lines[1].conditions[0].coverage, "50%");
}

#[test]
fn truncated_stream_is_unexpected_eof() {
    let input = format!("<coverage {ROOT_ATTRS}><packages>");
    match parse(&input) {
        Err(ParserError::UnexpectedEof) => {}
        other => panic!("expected UnexpectedEof, got {:?}", other),
    }
}

#[test]
fn empty_input_is_unexpected_eof() {
    match parse("") {
        Err(ParserError::UnexpectedEof) => {}
        other => panic!("expected UnexpectedEof, got {:?}", other),
    }
}

#[test]
fn tokenizer_failure_surfaces_with_its_message() {
    let input = format!("<coverage {ROOT_ATTRS}><packages></coverage>");
    match parse(&input) {
        Err(ParserError::UnexpectedValue(message)) => {
            assert!(!message.is_empty());
        }
        other => panic!("expected UnexpectedValue, got {:?}", other),
    }
}

#[test]
fn unreadable_attribute_syntax_is_reported() {
    let input = "<coverage line-rate=0.5></coverage>";
    match parse(input) {
        Err(ParserError::FailedToParseAttribute) => {}
        other => panic!("expected FailedToParseAttribute, got {:?}", other),
    }
}

#[test]
fn declarations_comments_and_whitespace_are_ignored() {
    let input = format!(
        "<?xml version=\"1.0\" encoding=\"UTF-8\"?>\n\
         <!-- a generated report -->\n\
         <coverage {ROOT_ATTRS}>\n  \n\t<packages/>\n</coverage>"
    );
    let doc = parse(&input).expect("the document is well formed");
    assert_eq!(doc.packages.len(), 0);
}

#[test]
fn parser_reusable_after_tokenizer_run() {
    let input = format!("<coverage {ROOT_ATTRS}><packages/></coverage>");
    let mut parser = Parser::new();
    let mut reader = Reader::from_str(&input);
    let doc1 = parser.parse(&mut reader).expect("first run");
    let mut reader2 = Reader::from_str(&input);
    let doc2 = parser.parse(&mut reader2).expect("second run");
    assert_eq!(doc1, doc2);
}
