use virtual_dj_plugin::host::{
    cue_command_text, deck_command_text, is_audible, is_cue_set, number_answer, number_reply,
    parse_active_deck, terminated_bytes, text_answer, text_reply, CUES, DECKS, HOST_NOT_IMPLEMENTED,
    HOST_OK,
};
use virtual_dj_plugin::{QueryError, Reply};

const E_FAIL: i32 = virtualdj_plugin_sdk::ffi::E_FAIL;

fn buffer_with(text: &[u8]) -> Vec<u8> {
    let mut buffer = vec![0u8; 4096];
    buffer[..text.len()].copy_from_slice(text);
    buffer
}

#[test]
fn limits_of_the_engine() {
    assert_eq!(DECKS, 4);
    assert_eq!(CUES, 128);
}

#[test]
fn deck_commands() {
    assert_eq!(deck_command_text(1, "get_title"), "deck 1 get_title");
    assert_eq!(deck_command_text(4, "is_audible"), "deck 4 is_audible");
    assert_eq!(deck_command_text(2, "get_position"), "deck 2 get_position");
}

#[test]
fn cue_commands() {
    assert_eq!(cue_command_text(1, "has_cue", 1), "deck 1 has_cue 1");
    assert_eq!(cue_command_text(3, "cue_pos", 17), "deck 3 cue_pos 17");
    assert_eq!(cue_command_text(4, "cue_name", 128), "deck 4 cue_name 128");
}

#[test]
fn audible_flags() {
    assert!(is_audible("on"));
    assert!(is_audible("On"));
    assert!(is_audible("YES"));
    assert!(is_audible("true"));
    assert!(is_audible("TrUe"));
    assert!(!is_audible(""));
    assert!(!is_audible("off"));
    assert!(!is_audible("o"));
    assert!(!is_audible("onn"));
    assert!(!is_audible("yes "));
    assert!(!is_audible("1"));
}

#[test]
fn cue_flags() {
    assert!(is_cue_set("on"));
    assert!(is_cue_set("ON"));
    assert!(is_cue_set("oN"));
    assert!(!is_cue_set("yes"));
    assert!(!is_cue_set("true"));
    assert!(!is_cue_set(""));
    assert!(!is_cue_set("off"));
}

#[test]
fn active_deck_is_a_number_from_one_to_four() {
    assert_eq!(parse_active_deck("1"), Some(1));
    assert_eq!(parse_active_deck("4"), Some(4));
    assert_eq!(parse_active_deck(" 2 "), Some(2));
    assert_eq!(parse_active_deck("\t3\r\n"), Some(3));
    assert_eq!(parse_active_deck("+3"), Some(3));
    assert_eq!(parse_active_deck("0002"), Some(2));
    assert_eq!(parse_active_deck("0"), None);
    assert_eq!(parse_active_deck("5"), None);
    assert_eq!(parse_active_deck("-1"), None);
    assert_eq!(parse_active_deck(""), None);
    assert_eq!(parse_active_deck("  "), None);
    assert_eq!(parse_active_deck("+"), None);
    assert_eq!(parse_active_deck("2.0"), None);
    assert_eq!(parse_active_deck("2 3"), None);
    assert_eq!(parse_active_deck("two"), None);
    assert_eq!(parse_active_deck("99999999999999999999999"), None);
    assert_eq!(parse_active_deck("00000000000000000000001"), Some(1));
}

#[test]
fn text_up_to_the_first_zero_byte() {
    assert_eq!(terminated_bytes(&buffer_with(b"Song A")), b"Song A".to_vec());
    assert_eq!(terminated_bytes(b"ab\0cd\0"), b"ab".to_vec());
    assert_eq!(terminated_bytes(b"\0abc"), Vec::<u8>::new());
    assert_eq!(terminated_bytes(b"no zero"), b"no zero".to_vec());
    assert_eq!(terminated_bytes(b""), Vec::<u8>::new());
}

#[test]
fn text_reply_reads_the_buffer_on_success() {
    assert_eq!(text_reply(HOST_OK, &buffer_with(b"Song A")), Ok("Song A".to_string()));
    assert_eq!(text_reply(HOST_OK, &buffer_with(b"")), Ok(String::new()));
    assert_eq!(
        text_reply(HOST_OK, &buffer_with("Caf\u{e9} \u{65e5}".as_bytes())),
        Ok("Caf\u{e9} \u{65e5}".to_string())
    );
    assert_eq!(text_reply(HOST_OK, &[b'x'; 16]), Ok("xxxxxxxxxxxxxxxx".to_string()));
}

#[test]
fn text_reply_refuses_bytes_that_are_no_text() {
    assert_eq!(text_reply(HOST_OK, &buffer_with(&[b'a', 0xff, b'b'])), Err(QueryError::Malformed));
    assert_eq!(text_reply(HOST_OK, &buffer_with(&[0xc3])), Err(QueryError::Malformed));
    assert_eq!(text_reply(HOST_OK, &buffer_with(&[b'a', 0, 0xff])), Ok("a".to_string()));
}

#[test]
fn text_reply_maps_result_codes() {
    assert_eq!(text_reply(E_FAIL, &buffer_with(b"Song A")), Err(QueryError::Failed));
    assert_eq!(
        text_reply(HOST_NOT_IMPLEMENTED, &buffer_with(b"Song A")),
        Err(QueryError::NotImplemented)
    );
    assert_eq!(text_reply(1, &buffer_with(b"Song A")), Err(QueryError::Failed));
    assert_eq!(text_reply(-1, &buffer_with(b"Song A")), Err(QueryError::Failed));
    assert_eq!(text_reply(i32::MIN, &buffer_with(b"Song A")), Err(QueryError::Failed));
}

#[test]
fn number_reply_maps_result_codes() {
    assert_eq!(number_reply(HOST_OK, 42), Ok(42));
    assert_eq!(number_reply(HOST_OK, -1), Ok(-1));
    assert_eq!(number_reply(E_FAIL, 42), Err(QueryError::Failed));
    assert_eq!(number_reply(HOST_NOT_IMPLEMENTED, 42), Err(QueryError::NotImplemented));
    assert_eq!(number_reply(1, 42), Err(QueryError::Failed));
}

#[test]
fn result_code_constants() {
    assert_eq!(HOST_OK, 0);
    assert_eq!(HOST_NOT_IMPLEMENTED as u32, 0x80004001);
    assert_eq!(HOST_OK, virtualdj_plugin_sdk::ffi::S_OK);
    assert_eq!(HOST_NOT_IMPLEMENTED, virtualdj_plugin_sdk::ffi::E_NOTIMPL);
    assert_eq!(E_FAIL as u32, 0x80004005);
}

#[test]
fn result_codes_are_named_as_the_plugin_interface_names_them() {
    for code in [0, 1, -1, E_FAIL, HOST_NOT_IMPLEMENTED, i32::MAX, i32::MIN, 42] {
        let expected = match virtualdj_plugin_sdk::PluginError::from(code) {
            virtualdj_plugin_sdk::PluginError::Ok => Ok(7),
            virtualdj_plugin_sdk::PluginError::NotImplemented => Err(QueryError::NotImplemented),
            virtualdj_plugin_sdk::PluginError::Fail => Err(QueryError::Failed),
            virtualdj_plugin_sdk::PluginError::NullPointer => Err(QueryError::Unavailable),
        };
        assert_eq!(number_reply(code, 7), expected);
    }
}

#[test]
fn errors_become_answers_without_data() {
    assert_eq!(text_answer(Ok("on".to_string())), Reply::Text("on".to_string()));
    assert_eq!(text_answer(Err(QueryError::Unavailable)), Reply::Failed);
    assert_eq!(text_answer(Err(QueryError::Malformed)), Reply::Failed);
    assert_eq!(number_answer(Ok(7)), Reply::Number(7));
    assert_eq!(number_answer(Err(QueryError::Failed)), Reply::Failed);
    assert_eq!(number_answer(Err(QueryError::NotImplemented)), Reply::Failed);
}

#[test]
fn reply_accessors() {
    assert_eq!(Reply::Text("a".to_string()).into_text_or_empty(), "a");
    assert_eq!(Reply::<String>::Number(3).into_text_or_empty(), "");
    assert_eq!(Reply::<String>::Failed.into_text_or_empty(), "");
    assert_eq!(Reply::Text("a".to_string()).into_text(), Some("a".to_string()));
    assert_eq!(Reply::Text(String::new()).into_text(), Some(String::new()));
    assert_eq!(Reply::<String>::Failed.into_text(), None);
    assert_eq!(Reply::<String>::Number(3).number(), Some(3));
    assert_eq!(Reply::Text("3".to_string()).number(), None);
    assert_eq!(Reply::<String>::Failed.number(), None);
}

fn texts_over(alphabet: &[&str], length: usize) -> Vec<String> {
    let mut texts = vec![String::new()];
    let mut all = texts.clone();
    for _ in 0..length {
        let mut longer = Vec::new();
        for text in &texts {
            for piece in alphabet {
                longer.push(format!("{text}{piece}"));
            }
        }
        all.extend(longer.iter().cloned());
        texts = longer;
    }
    all
}

#[test]
fn active_deck_is_read_as_the_standard_library_reads_an_integer() {
    for answer in texts_over(&["0", "1", "4", "5", "+", "-", " ", "\n", "x", "\u{3000}"], 5) {
        let expected = answer.trim().parse::<i32>().ok().filter(|d| (1..=4).contains(d));
        assert_eq!(parse_active_deck(&answer), expected.map(|d| d as u32), "{:?}", answer);
    }
}

#[test]
fn flags_are_read_as_lower_casing_reads_them() {
    for flag in texts_over(&["o", "O", "n", "N", "y", "E", "s", "t", "R", "u", "e", " "], 4) {
        let lowered = flag.to_lowercase();
        assert_eq!(is_audible(&flag), matches!(lowered.as_str(), "on" | "yes" | "true"), "{:?}", flag);
        assert_eq!(is_cue_set(&flag), lowered == "on", "{:?}", flag);
    }
}

#[test]
fn text_reply_agrees_with_the_standard_library_on_what_is_text() {
    for bytes in [
        vec![0x41u8, 0x42],
        vec![0xc3, 0xa9],
        vec![0xc3],
        vec![0xe6, 0x97, 0xa5],
        vec![0xe6, 0x97],
        vec![0xed, 0xa0, 0x80],
        vec![0xc0, 0x80],
        vec![0xf0, 0x9f, 0x8e, 0xb5],
        vec![0xf4, 0x90, 0x80, 0x80],
        vec![0xff],
        vec![0x80],
        vec![0x7f],
    ] {
        let expected = String::from_utf8(bytes.clone()).map_err(|_| QueryError::Malformed);
        assert_eq!(text_reply(HOST_OK, &buffer_with(&bytes)), expected, "{:?}", bytes);
    }
}
