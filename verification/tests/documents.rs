use roku::event::eq_ignore_ascii_case;
use roku::inputs::{connection_id, signal_class, tvinput_for};
use roku::text;
use roku::xml::unescape;
use roku::{parse_apps, tag};

fn app(id: &str, name: &str) -> (String, String) {
    (id.to_string(), name.to_string())
}

#[test]
fn entities_are_read_back_and_the_ampersand_last() {
    assert_eq!(
        unescape("&lt;b&gt; &quot;Tom&apos;s&quot; &#39;n&#39; Live &amp; Breaking"),
        "<b> \"Tom's\" 'n' Live & Breaking",
    );
    assert_eq!(unescape("&amp;lt;"), "&lt;");
    assert_eq!(unescape("&amp;amp;"), "&amp;");
    assert_eq!(unescape("no entities; &unknown;"), "no entities; &unknown;");
    assert_eq!(unescape(""), "");
}

#[test]
fn a_list_is_read_in_its_order() {
    let xml = r#"<apps>
        <app id="837" subtype="ndka" type="appl" version="1.0">YouTube</app>
        <app type="appl" id="12">  Netflix
        </app>
        <app id="7">ABC News: Live &amp; Breaking News</app>
    </apps>"#;
    assert_eq!(
        parse_apps(xml),
        vec![
            app("837", "YouTube"),
            app("12", "Netflix"),
            app("7", "ABC News: Live & Breaking News"),
        ],
    );
}

#[test]
fn elements_without_an_id_or_a_name_are_passed_over() {
    assert_eq!(parse_apps(""), vec![]);
    assert_eq!(parse_apps("<apps></apps>"), vec![]);
    assert_eq!(parse_apps("<app type=\"appl\">No id</app>"), vec![]);
    assert_eq!(parse_apps("<app id=\"\">Empty id</app>"), vec![]);
    assert_eq!(parse_apps("<app id=\"1\">   </app>"), vec![]);
    assert_eq!(parse_apps("<app id=\"1\">Never closed"), vec![]);
    assert_eq!(parse_apps("<app id=\"1</app>"), vec![]);
    assert_eq!(parse_apps("<app id=\"1\"</app>>"), vec![]);
    assert_eq!(
        parse_apps("<app id=\"\">a</app><app id=\"2\">b</app><app >c</app>"),
        vec![app("2", "b")],
    );
}

#[test]
fn a_tag_is_the_first_of_its_name_without_the_space_around() {
    let xml = "<device-info><model-name>\u{a0} 40H4030\n</model-name><model-name>x</model-name>\
               </device-info>";
    assert_eq!(tag(xml, "model-name").as_deref(), Some("40H4030"));
    assert_eq!(tag(xml, "is-tv"), None);
    assert_eq!(tag("<a>1", "a"), None);
    assert_eq!(tag("</a><a>1</a>", "a").as_deref(), Some("1"));
    assert_eq!(tag("<a></a>", "a").as_deref(), Some(""));
    assert_eq!(tag("<a>Kä&amp;se</a>", "a").as_deref(), Some("Kä&amp;se"));
}

#[test]
fn every_input_has_its_connection() {
    assert_eq!(connection_id("tvinput.hdmi1"), Some(1001));
    assert_eq!(connection_id("tvinput.hdmi99"), Some(1099));
    assert_eq!(connection_id("tvinput.hdmi100"), None);
    assert_eq!(connection_id("tvinput.hdmi0"), None);
    assert_eq!(connection_id("tvinput.hdmi"), None);
    assert_eq!(connection_id("tvinput.hdmi+3"), Some(1003));
    assert_eq!(connection_id("tvinput.hdmi03"), Some(1003));
    assert_eq!(connection_id("tvinput.hdmi-3"), None);
    assert_eq!(connection_id("tvinput.hdmi+"), None);
    assert_eq!(connection_id("tvinput.hdmi3a"), None);
    assert_eq!(connection_id("tvinput.hdmi4294967297"), None);
    assert_eq!(connection_id("tvinput.hdmi99999999999999999999999"), None);
    assert_eq!(connection_id("tvinput.cvbs"), Some(1101));
    assert_eq!(connection_id("tvinput.av"), Some(1101));
    assert_eq!(connection_id("tvinput.component"), Some(1102));
    assert_eq!(connection_id("tvinput.tuner"), Some(1201));
    assert_eq!(connection_id("tvinput.dtv"), Some(1201));
    assert_eq!(connection_id("tvinput.vga"), None);
    assert_eq!(connection_id("hdmi1"), None);
}

#[test]
fn every_input_has_its_cable() {
    assert_eq!(signal_class("tvinput.hdmi2"), "HDMI");
    assert_eq!(signal_class("tvinput.av"), "COMPOSITE");
    assert_eq!(signal_class("tvinput.component"), "COMPONENT");
    assert_eq!(signal_class("tvinput.dtv"), "RF_UHF_VHF");
    assert_eq!(signal_class("12"), "HDMI");
}

#[test]
fn every_connection_is_switched_to_by_an_id_of_its_own() {
    let mut switched = 0;
    for connection in 0..2000u64 {
        if let Some(id) = tvinput_for(connection) {
            assert_eq!(connection_id(&id), Some(connection as u32));
            switched += 1;
        }
    }
    assert_eq!(switched, 102);
    assert_eq!(tvinput_for(1000), None);
    assert_eq!(tvinput_for(1001).as_deref(), Some("tvinput.hdmi1"));
    assert_eq!(tvinput_for(1099).as_deref(), Some("tvinput.hdmi99"));
    assert_eq!(tvinput_for(1100), None);
    assert_eq!(tvinput_for(1101).as_deref(), Some("tvinput.cvbs"));
    assert_eq!(tvinput_for(1102).as_deref(), Some("tvinput.component"));
    assert_eq!(tvinput_for(1201).as_deref(), Some("tvinput.tuner"));
    assert_eq!(tvinput_for(u64::MAX), None);
}

#[test]
fn a_listed_id_is_the_one_asked_for_but_for_the_other_spellings() {
    let again = |id: &str| tvinput_for(connection_id(id).unwrap() as u64).unwrap();
    for id in ["tvinput.hdmi1", "tvinput.hdmi42", "tvinput.cvbs", "tvinput.component", "tvinput.tuner"] {
        assert_eq!(again(id), id);
    }
    assert_eq!(again("tvinput.av"), "tvinput.cvbs");
    assert_eq!(again("tvinput.dtv"), "tvinput.tuner");
    assert_eq!(again("tvinput.hdmi+7"), "tvinput.hdmi7");
    assert_eq!(again("tvinput.hdmi007"), "tvinput.hdmi7");
}

#[test]
fn text_is_searched_and_put_together_by_characters() {
    assert_eq!(text::find("äöü<x>", "<x>"), Some(3));
    assert_eq!(text::find("aaa", "b"), None);
    assert_eq!(text::split("a,b,,c", ","), vec!["a", "b", "", "c"]);
    assert_eq!(text::split("", ","), vec![""]);
    assert_eq!(text::replace("aaaa", "aa", "b"), "bb");
    assert_eq!(text::replace("abab", "ab", ""), "");
    assert_eq!(text::trim("\t\u{2003}a b\u{85}\n"), "a b");
    assert_eq!(text::trim(" \n "), "");
    assert_eq!(text::first_word("  Roku/12.5.5 UPnP/1.0").as_deref(), Some("Roku/12.5.5"));
    assert_eq!(text::first_word(" \t "), None);
    assert_eq!(text::trim_end_matches("10.0.0.5:8060:8060", ":8060"), "10.0.0.5");
    assert_eq!(text::after_last("uuid:roku:ecp:X0", ':'), "X0");
    assert_eq!(text::after_last("plain", ':'), "plain");
    assert_eq!(text::after_last("ends:", ':'), "");
    assert_eq!(text::to_decimal(0), "0");
    assert_eq!(text::to_decimal(18446744073709551615), "18446744073709551615");
    assert_eq!(text::to_u32("4294967295"), Some(4294967295));
    assert_eq!(text::to_u32("4294967296"), None);
    assert_eq!(text::to_u32(""), None);
    assert_eq!(
        text::join(&vec!["a".to_string(), "b".to_string(), "c".to_string()], ", "),
        "a, b, c",
    );
    assert_eq!(text::join(&vec![], ", "), "");
}

#[test]
fn case_is_ignored_in_ascii_alone() {
    assert!(eq_ignore_ascii_case("POWERon", "PowerOn"));
    assert!(!eq_ignore_ascii_case("PowerOn ", "PowerOn"));
    assert!(!eq_ignore_ascii_case("Ä", "ä"));
    assert!(!eq_ignore_ascii_case("[", "{"));
}
