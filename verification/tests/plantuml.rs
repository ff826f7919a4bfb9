use lens::plantuml::{
    encode_six_bits, encode_triplet, server_from_value, svg_url, DiagramRenderer, RendererMode,
    PUBLIC_SERVER,
};

#[test]
fn six_bit_boundaries_then_use_plantuml_alphabet() {
    // Arrange
    let values = [0, 9, 10, 35, 36, 61, 62, 63];

    // Act
    let encoded: String = values.into_iter().map(encode_six_bits).collect();

    // Assert
    assert_eq!(encoded, "09AZaz-_");
}

#[test]
fn plantuml_source_then_generates_public_svg_url() {
    // Arrange
    let source = "@startuml\nAlice -> Bob: hello\n@enduml";

    // Act
    let url = svg_url(source);

    // Assert
    assert!(url.starts_with(&format!("{PUBLIC_SERVER}/svg/")));
    assert!(url
        .trim_start_matches(&format!("{PUBLIC_SERVER}/svg/"))
        .chars()
        .all(|character| character.is_ascii_alphanumeric()
            || character == '-'
            || character == '_'));
}

#[test]
fn three_bytes_then_encode_as_four_six_bit_groups() {
    assert_eq!(encode_triplet(0xFF, 0xFF, 0xFF), "____");
    assert_eq!(encode_triplet(0, 0, 0), "0000");
    assert_eq!(encode_triplet(0x04, 0x10, 0x41), "1111");
}

#[test]
fn same_source_then_same_url() {
    let source = "@startuml\nA -> B\n@enduml";
    assert_eq!(svg_url(source), svg_url(source));
    assert_ne!(svg_url(source), svg_url("@startuml\nB -> A\n@enduml"));
}

#[test]
fn renderer_modes_then_report_enabled_state_and_label() {
    let public = DiagramRenderer::from_mode(RendererMode::Public);
    let disabled = DiagramRenderer::from_mode(RendererMode::Disabled);
    assert!(public.is_enabled());
    assert!(!disabled.is_enabled());
    assert_eq!(public.label(), "public");
}

#[test]
fn configured_server_then_is_trimmed_and_empty_falls_back_to_public() {
    assert_eq!(server_from_value(Some("  http://127.0.0.1:8080/plantuml//  ")), "http://127.0.0.1:8080/plantuml");
    assert_eq!(server_from_value(Some(" / ")), PUBLIC_SERVER);
    assert_eq!(server_from_value(None), PUBLIC_SERVER);
}
