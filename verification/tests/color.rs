use remud::color::{ColorSupport, ColorTrue};
use remud::tags::{find_color_tag, TagKind};
use remud::telnet_color::{colorize_telnet, TelnetReplacer};
use remud::web_color;
use remud::ws::{colorize_web, WsMessageSegment};

#[test]
fn test_color_escape() {
    let caps = find_color_tag("||").unwrap();
    assert_eq!(caps.name(TagKind::Escape).unwrap(), "||");
}

#[test]
fn test_256_color() {
    let caps = find_color_tag("|0|").unwrap();
    assert_eq!(caps.name(TagKind::Byte).unwrap(), "0");

    let caps = find_color_tag("|255|").unwrap();
    assert_eq!(caps.name(TagKind::Byte).unwrap(), "255");

    let caps = find_color_tag("|44|").unwrap();
    assert_eq!(caps.name(TagKind::Byte).unwrap(), "44");

    let caps = find_color_tag("|197|").unwrap();
    assert_eq!(caps.name(TagKind::Byte).unwrap(), "197");

    let caps = find_color_tag("|232|").unwrap();
    assert_eq!(caps.name(TagKind::Byte).unwrap(), "232");
}

#[test]
fn test_true_color() {
    let caps = find_color_tag("|#000000|").unwrap();
    assert_eq!(caps.name(TagKind::TrueColor).unwrap(), "000000");

    let caps = find_color_tag("|#FfFfFf|").unwrap();
    assert_eq!(caps.name(TagKind::TrueColor).unwrap(), "FfFfFf");

    let caps = find_color_tag("|#7152d1|").unwrap();
    assert_eq!(caps.name(TagKind::TrueColor).unwrap(), "7152d1");
}

#[test]
fn test_named_color() {
    let caps = find_color_tag("|white|").unwrap();
    assert_eq!(caps.name(TagKind::Name).unwrap(), "white");
}

#[test]
fn test_clear_color() {
    let caps = find_color_tag("|-|").unwrap();
    assert_eq!(caps.name(TagKind::Clear).unwrap(), "|-|");
}

#[test]
fn test_replacer_closed_true() {
    let mut replacer = TelnetReplacer::new(ColorSupport::TrueColor);
    replacer.replace_all("|0|text|-|");
    assert_eq!(replacer.closed(), true);
}

#[test]
fn test_replacer_closed_false() {
    let mut replacer = TelnetReplacer::new(ColorSupport::TrueColor);
    replacer.replace("|0|text");
    assert_eq!(replacer.closed(), false);
}

#[test]
fn test_replacer_keeps_true() {
    let mut replacer = TelnetReplacer::new(ColorSupport::TrueColor);
    let result = replacer.replace("|#123456|text");
    assert_eq!(result, "\x1b[38;2;18;52;86mtext")
}

#[test]
fn test_replacer_lowers_true_to_256() {
    let mut replacer = TelnetReplacer::new(ColorSupport::Colors256);
    let result = replacer.replace("|#123456|text");
    assert_eq!(result, "\x1b[38;5;23mtext")
}

#[test]
fn test_replacer_lowers_true_to_16() {
    let mut replacer = TelnetReplacer::new(ColorSupport::Colors16);
    let result = replacer.replace("|#123456|text");
    assert_eq!(result, "\x1b[36mtext")
}

#[test]
fn test_replacer_keeps_256() {
    let mut replacer = TelnetReplacer::new(ColorSupport::Colors256);
    let result = replacer.replace("|48|text");
    assert_eq!(result, "\x1b[38;5;48mtext")
}

#[test]
fn test_replacer_lowers_256_to_16() {
    let mut replacer = TelnetReplacer::new(ColorSupport::Colors16);
    let result = replacer.replace("|48|text");
    assert_eq!(result, "\x1b[92mtext")
}

#[test]
fn test_replacer_removes_color() {
    let mut replacer = TelnetReplacer::new(ColorSupport::NoColor);
    let result = replacer.replace_all("|#123456|t|200|e|Red1|x|-|t");
    assert_eq!(result, "text");
}

#[test]
fn test_replacer_translates_escape() {
    let mut replacer = TelnetReplacer::new(ColorSupport::NoColor);
    let result = replacer.replace_all("||text||");
    assert_eq!(result, "|text|");
}

#[test]
fn test_replacer_nesting() {
    let mut replacer = TelnetReplacer::new(ColorSupport::TrueColor);
    let result = replacer.replace_all("|#654321|some |#123456|pretty|-| text|-|");
    assert_eq!(
        result,
        "\x1b[38;2;101;67;33msome \x1b[38;2;18;52;86mpretty\x1b[38;2;101;67;33m text\x1b[m"
    )
}

#[test]
fn test_replacer_extra_close() {
    let mut replacer = TelnetReplacer::new(ColorSupport::TrueColor);
    let result = replacer.replace_all("|#654321|text|-| |-|");
    assert_eq!(result, "\x1b[38;2;101;67;33mtext\x1b[m ")
}

#[test]
fn colorize_web_just_text() {
    let result = colorize_web("some text");
    assert_eq!(&[WsMessageSegment::text("some text")], result.as_slice());
}

#[test]
fn colorize_web_wrapped() {
    let result = colorize_web("|white|some text|-|");
    assert_eq!(
        &[
            WsMessageSegment::color(ColorTrue::new(255, 255, 255)),
            WsMessageSegment::text("some text"),
            WsMessageSegment::end_color()
        ],
        result.as_slice()
    );
}

#[test]
fn colorize_web_auto_close() {
    let result = colorize_web("|white|some text");
    assert_eq!(
        &[
            WsMessageSegment::color(ColorTrue::new(255, 255, 255)),
            WsMessageSegment::text("some text"),
            WsMessageSegment::end_color()
        ],
        result.as_slice()
    );
}

#[test]
fn colorize_web_auto_close_twice() {
    let result = colorize_web("|white|some |black|text");
    assert_eq!(
        &[
            WsMessageSegment::color(ColorTrue::new(255, 255, 255)),
            WsMessageSegment::text("some "),
            WsMessageSegment::color(ColorTrue::new(0, 0, 0)),
            WsMessageSegment::text("text"),
            WsMessageSegment::end_color(),
            WsMessageSegment::end_color()
        ],
        result.as_slice()
    );
}

#[test]
fn colorize_web_pipe_escape() {
    let result = colorize_web("|white||||-|");
    assert_eq!(
        &[
            WsMessageSegment::color(ColorTrue::new(255, 255, 255)),
            WsMessageSegment::text("|"),
            WsMessageSegment::end_color(),
        ],
        result.as_slice()
    );
    let result = colorize_web("|white|||");
    assert_eq!(
        &[
            WsMessageSegment::color(ColorTrue::new(255, 255, 255)),
            WsMessageSegment::text("|"),
            WsMessageSegment::end_color(),
        ],
        result.as_slice()
    );
    let result = colorize_web("||");
    assert_eq!(&[WsMessageSegment::text("|"),], result.as_slice());
}

#[test]
fn colorize_web_preserve_whitespace() {
    let result = colorize_web("|white|ID 10|-|\ta flower pot");
    assert_eq!(
        &[
            WsMessageSegment::color(ColorTrue::new(255, 255, 255)),
            WsMessageSegment::text("ID 10"),
            WsMessageSegment::end_color(),
            WsMessageSegment::text("\ta flower pot"),
        ],
        result.as_slice()
    );
}

// ---------------------------------------------------------------------------

#[test]
fn telnet_closes_open_color() {
    assert_eq!(
        colorize_telnet("|white|hi", ColorSupport::Colors256),
        "\x1b[38;5;15mhi\x1b[m"
    );
    assert_eq!(colorize_telnet("|white|hi|-|", ColorSupport::Colors256), "\x1b[38;5;15mhi\x1b[m");
}

#[test]
fn telnet_names_ignore_case() {
    assert_eq!(colorize_telnet("|WHITE|x|-|", ColorSupport::Colors16), "\x1b[97mx\x1b[m");
    assert_eq!(colorize_telnet("|Gray69|x", ColorSupport::Colors256), "\x1b[38;5;145mx\x1b[m");
}

#[test]
fn telnet_unknown_name_is_dropped_and_balanced() {
    // an unknown name shows nothing, but its clear tag is still consumed
    assert_eq!(
        colorize_telnet("|red|a|nosuch|b|-|c|-|", ColorSupport::TrueColor),
        "\x1b[38;5;9mab\x1b[38;5;9mc\x1b[m"
    );
}

#[test]
fn telnet_text_without_tags_is_unchanged() {
    assert_eq!(colorize_telnet("plain | text", ColorSupport::TrueColor), "plain | text");
    assert_eq!(colorize_telnet("a|#12345|b", ColorSupport::TrueColor), "a|#12345|b");
}

#[test]
fn telnet_out_of_range_number_is_a_name() {
    // 256 and 012 do not name palette entries; they are read as (unknown) names
    assert_eq!(colorize_telnet("|256|x", ColorSupport::TrueColor), "x");
    assert_eq!(colorize_telnet("|012|x", ColorSupport::TrueColor), "x");
}

#[test]
fn true_color_to_256_gray() {
    // a near-gray picks the gray ramp
    let mut replacer = TelnetReplacer::new(ColorSupport::Colors256);
    assert_eq!(replacer.replace("|#808081|"), "\x1b[38;5;244m");
}

#[test]
fn web_html_spans() {
    assert_eq!(
        web_color::colorize_web("|white|a|-|b|#0a0B0c|c"),
        "<span style=\"color: #ffffff;\">a</span>b<span style=\"color: #0a0b0c;\">c</span>"
    );
    assert_eq!(web_color::colorize_web("||-|"), "|-|");
}

#[test]
fn color_as_hex() {
    assert_eq!(ColorTrue::new(1, 171, 255).as_hex(), "01abff");
}

#[test]
fn cube_colors_map_to_their_own_entry() {
    assert_eq!(remud::color::Color256::from_true(ColorTrue::new(0, 95, 0)).0, 22);
    assert_eq!(remud::color::Color256::from_true(ColorTrue::new(0, 0, 95)).0, 17);
    assert_eq!(remud::color::Color256::new_cube(1, 2, 3).0, 16 + 36 + 12 + 3);
}

#[test]
fn near_black_is_black() {
    assert_eq!(remud::color::Color256::from_true(ColorTrue::new(1, 1, 1)).0, 16);
    assert_eq!(remud::color::Color256::from_true(ColorTrue::new(9, 9, 9)).0, 232);
}

#[test]
fn escaped_names_render_as_themselves() {
    let name = "a |red| pipe|";
    let escaped = remud::types::escape(&name.to_string());
    assert_eq!(colorize_telnet(escaped.as_str(), ColorSupport::TrueColor), name);
    assert_eq!(colorize_telnet(escaped.as_str(), ColorSupport::NoColor), name);
}

#[test]
fn hex_codes_read_back() {
    let c = ColorTrue::new(18, 52, 86);
    assert_eq!(c.as_hex(), "123456");
    assert_eq!(ColorTrue::new(255, 255, 255).as_hex(), "ffffff");
}

#[test]
fn plain_telnet_matches_web_text() {
    let m = "|white|some ||text|-| here";
    let plain = colorize_telnet(m, ColorSupport::NoColor);
    let mut joined = String::new();
    for seg in colorize_web(m) {
        if let WsMessageSegment::Text { text } = seg {
            joined.push_str(text.as_str());
        }
    }
    assert_eq!(plain, joined);
}
