use spafe::utils::vis::{escape_xml, hex_color, parse_hex};

#[test]
fn escape_xml_replaces_markup() {
    assert_eq!(escape_xml("a < b & \"c\" > d"), "a &lt; b &amp; &quot;c&quot; &gt; d");
    assert_eq!(escape_xml("Linear Filter Bank"), "Linear Filter Bank");
    assert_eq!(escape_xml(""), "");
    assert_eq!(escape_xml("&amp;"), "&amp;amp;");
    assert_eq!(escape_xml("é<"), "é&lt;");
}

#[test]
fn parse_hex_reads_colors() {
    assert_eq!(parse_hex("#2563eb"), (0x25, 0x63, 0xeb));
    assert_eq!(parse_hex("#F59E0B"), (0xf5, 0x9e, 0x0b));
    assert_eq!(parse_hex("##111827"), (0x11, 0x18, 0x27));
    assert_eq!(parse_hex("38bdf8"), (0x38, 0xbd, 0xf8));
    assert_eq!(parse_hex("#zz+f0g"), (0, 15, 0));
    assert_eq!(parse_hex("#-1ffff"), (0, 0xff, 0xff));
}

#[test]
fn hex_color_round_trip() {
    assert_eq!(hex_color(0x0f, 0x17, 0x2a), "#0f172a");
    assert_eq!(hex_color(255, 0, 128), "#ff0080");
    for (r, g, b) in [(0u8, 0u8, 0u8), (1, 2, 3), (200, 17, 255)] {
        assert_eq!(parse_hex(&hex_color(r, g, b)), (r, g, b));
    }
}
