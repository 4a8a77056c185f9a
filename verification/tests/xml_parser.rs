use responses_proxy::xml::{contains_xml_tool_call, extract_xml_tool_calls};

#[test]
fn test_detect_xml_tool_call() {
    assert!(contains_xml_tool_call("<function=test>"));
    assert!(contains_xml_tool_call("Some text <parameter=key>"));
    assert!(!contains_xml_tool_call("Regular text"));
}

#[test]
fn test_extract_simple_tool_call() {
    let input = r#"Let me help.
<function=apply_patch>
<parameter=patch>
*** Begin Patch
*** End Patch
</parameter>
</function>"#;

    let (cleaned, calls) = extract_xml_tool_calls(input);
    assert_eq!(calls.len(), 1);
    assert_eq!(calls[0].name, "apply_patch");
    assert!(calls[0].arguments.contains("patch"));
    assert_eq!(cleaned, "Let me help.");
}

#[test]
fn test_extract_multiple_params() {
    let input = r#"<function=read_file>
<parameter=file_path>
test.txt
</parameter>
<parameter=limit>
100
</parameter>
</function>"#;

    let (_, calls) = extract_xml_tool_calls(input);
    assert_eq!(calls.len(), 1);
    assert_eq!(calls[0].name, "read_file");
}

#[test]
fn no_markers_only_trims() {
    let (cleaned, calls) = extract_xml_tool_calls("  plain text with spaces  ");
    assert_eq!(cleaned, "plain text with spaces");
    assert_eq!(calls.len(), 0);
}

#[test]
fn detection_is_case_insensitive() {
    assert!(contains_xml_tool_call("<FUNCTION=shout>"));
    assert!(contains_xml_tool_call("text </TOOL_CALL> text"));
}

#[test]
fn exact_arguments_json() {
    let input = "<function=read_file><parameter=path>/etc/hosts</parameter></function>";
    let (cleaned, calls) = extract_xml_tool_calls(input);
    assert_eq!(cleaned, "");
    assert_eq!(calls.len(), 1);
    assert_eq!(calls[0].name, "read_file");
    assert_eq!(calls[0].arguments, "{\"path\":\"/etc/hosts\"}");
}

#[test]
fn tool_call_closing_tag_also_closes() {
    let input = "a <function=go><parameter=x>1</parameter></tool_call> b";
    let (cleaned, calls) = extract_xml_tool_calls(input);
    assert_eq!(calls.len(), 1);
    assert_eq!(calls[0].name, "go");
    assert_eq!(calls[0].arguments, "{\"x\":\"1\"}");
    assert_eq!(cleaned, "a  b");
}

#[test]
fn incomplete_call_is_left_in_place() {
    let input = "start <function=pending><parameter=a>1</parameter> end";
    let (cleaned, calls) = extract_xml_tool_calls(input);
    assert_eq!(calls.len(), 0);
    assert_eq!(cleaned, "start <function=pending><parameter=a>1</parameter> end");
}

#[test]
fn two_calls_extracted_in_order() {
    let input = "<function=a></function><function=b></function>";
    let (cleaned, calls) = extract_xml_tool_calls(input);
    assert_eq!(cleaned, "");
    assert_eq!(calls.len(), 2);
    assert_eq!(calls[0].name, "a");
    assert_eq!(calls[1].name, "b");
    assert_eq!(calls[0].arguments, "{}");
}

#[test]
fn parameter_values_are_trimmed() {
    let input = "<function=f><parameter=k>  padded value \n</parameter></function>";
    let (_, calls) = extract_xml_tool_calls(input);
    assert_eq!(calls[0].arguments, "{\"k\":\"padded value\"}");
}
