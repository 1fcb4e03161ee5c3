use hangeul_composer::{
    cluster, collapse, combine_trailing, combine_vowels, compose, decompose, is_jamo, is_lead,
    is_punctuation, is_syllable, is_trailing, is_vowel, split_trailing, CodecError, InputEvent,
    Karacter, Session, COMPOSING_CAPACITY,
};

fn type_all(s: &mut Session, keys: &[char]) {
    for &k in keys {
        s.append_character(k);
    }
}

#[test]
fn test_process() {
    let input = char::from_u32(12623).unwrap();
    assert_eq!(input, 'ㅏ');
    assert!(is_vowel(input));
}

#[test]
fn classification_predicates() {
    assert!(is_jamo('ㄱ'));
    assert!(is_jamo('\u{1100}'));
    assert!(!is_jamo('가'));
    assert!(!is_jamo('a'));
    assert!(is_lead('ㄸ'));
    assert!(!is_lead('가'));
    assert!(!is_lead('ㄺ'));
    assert!(is_trailing('ㄺ'));
    assert!(!is_trailing('ㄸ'));
    assert!(!is_trailing('간'));
    assert!(is_vowel('\u{1161}'));
    assert!(!is_vowel('ㄱ'));
    assert!(is_syllable('한'));
    assert!(!is_syllable('ㅎ'));
    assert!(is_punctuation('.'));
    assert!(is_punctuation(' '));
    assert!(is_punctuation('~'));
    assert!(!is_punctuation('a'));
    assert!(!is_punctuation('ㄱ'));
}

#[test]
fn decompose_parts() {
    assert_eq!(decompose('간'), Ok(('ㄱ', 'ㅏ', Some('ㄴ'))));
    assert_eq!(decompose('가'), Ok(('ㄱ', 'ㅏ', None)));
    assert_eq!(decompose('밮'), Ok(('ㅂ', 'ㅏ', Some('ㅍ'))));
    assert_eq!(decompose('갉'), Ok(('ㄱ', 'ㅏ', Some('ㄺ'))));
    assert_eq!(decompose('ㄱ'), Err(CodecError::NotASyllable));
    assert_eq!(decompose('a'), Err(CodecError::NotASyllable));
}

#[test]
fn compose_parts() {
    assert_eq!(compose('ㄱ', 'ㅏ', None), Ok('가'));
    assert_eq!(compose('ㄱ', 'ㅏ', Some('ㄴ')), Ok('간'));
    assert_eq!(compose('\u{1100}', '\u{1161}', Some('\u{11AB}')), Ok('간'));
    assert_eq!(compose('ㅏ', 'ㄱ', None), Err(CodecError::InvalidJamo));
    assert_eq!(compose('ㄱ', 'ㅏ', Some('ㄸ')), Err(CodecError::InvalidJamo));
    assert_eq!(compose('가', 'ㅏ', None), Err(CodecError::InvalidJamo));
}

#[test]
fn round_trip_every_syllable() {
    for code in 0xAC00u32..=0xD7A3 {
        let s = char::from_u32(code).unwrap();
        let (l, v, t) = decompose(s).unwrap();
        assert_eq!(compose(l, v, t), Ok(s));
    }
}

#[test]
fn combine_tables() {
    assert_eq!(combine_vowels('ㅗ', 'ㅏ'), Some('ㅘ'));
    assert_eq!(combine_vowels('ㅡ', 'ㅣ'), Some('ㅢ'));
    assert_eq!(combine_vowels('ㅏ', 'ㅗ'), None);
    assert_eq!(combine_trailing('ㄹ', 'ㄱ'), Some('ㄺ'));
    assert_eq!(combine_trailing('ㅂ', 'ㅅ'), Some('ㅄ'));
    assert_eq!(combine_trailing('ㄱ', 'ㄹ'), None);
    assert_eq!(split_trailing('ㄺ'), (Some('ㄹ'), 'ㄱ'));
    assert_eq!(split_trailing('ㄳ'), (Some('ㄱ'), 'ㅅ'));
    assert_eq!(split_trailing('ㄴ'), (None, 'ㄴ'));
}

#[test]
fn cluster_spans() {
    let (cl, sp) = cluster(&['ㄱ', 'ㅗ', 'ㅏ', 'ㄹ', 'ㄱ']);
    assert_eq!(cl, vec!['ㄱ', 'ㅘ', 'ㄺ']);
    assert_eq!(sp, vec![1, 2, 2]);
    let (cl, sp) = cluster(&['ㅏ', 'ㅗ']);
    assert_eq!(cl, vec!['ㅏ', 'ㅗ']);
    assert_eq!(sp, vec![1, 1]);
    let (cl, sp) = cluster(&[]);
    assert!(cl.is_empty() && sp.is_empty());
}

#[test]
fn collapse_lengths() {
    assert_eq!(collapse(&[]), None);
    assert_eq!(collapse(&['ㄱ']), Some('ㄱ'));
    assert_eq!(collapse(&['ㄱ', 'ㅘ']), Some('과'));
    assert_eq!(collapse(&['ㄱ', 'ㅏ', 'ㄺ']), Some('갉'));
    assert_eq!(collapse(&['ㅏ', 'ㄱ']), None);
    assert_eq!(collapse(&['ㄱ', 'ㅏ', 'ㄴ', 'ㄷ']), None);
}

#[test]
fn capacity_evicts_oldest() {
    let mut s = Session::new();
    type_all(&mut s, &['ㄱ', 'ㅗ', 'ㅏ', 'ㄹ', 'ㄱ']);
    assert_eq!(s.composing().len(), COMPOSING_CAPACITY);
    assert_eq!(s.committed_text(), "");
    assert_eq!(s.rendered_view(), "괅");
    s.append_character('ㄷ');
    assert!(s.composing().len() <= COMPOSING_CAPACITY);
    assert!(s.committed_text().starts_with('ㄱ'));
    assert_eq!(s.committed_text(), "ㄱㅘㄺ");
    assert_eq!(s.composing(), &['ㄷ']);
}

#[test]
fn resyllabify_committed_syllable() {
    let mut s = Session::new();
    s.append_character('간');
    assert_eq!(s.committed_text(), "간");
    s.append_character('ㅏ');
    assert_eq!(s.committed_text(), "가");
    assert_eq!(s.composing(), &['ㄴ', 'ㅏ']);
    assert_eq!(s.rendered_view(), "가나");
}

#[test]
fn compound_trailing_splits() {
    let mut s = Session::new();
    type_all(&mut s, &['ㄱ', 'ㅏ', 'ㄹ', 'ㄱ']);
    assert_eq!(s.rendered_view(), "갉");
    s.append_character('ㅏ');
    assert_eq!(s.committed_text(), "갈");
    assert_eq!(s.composing(), &['ㄱ', 'ㅏ']);
    assert_eq!(s.rendered_view(), "갈가");

    let mut s = Session::new();
    s.append_character('갉');
    s.append_character('ㅓ');
    assert_eq!(s.committed_text(), "갈");
    assert_eq!(s.rendered_view(), "갈거");
}

#[test]
fn backspace_undoes_appends() {
    let keys = ['ㄱ', 'ㅏ', 'ㄴ', 'ㄷ', 'ㅏ'];
    let mut s = Session::new();
    type_all(&mut s, &keys);
    assert_eq!(s.committed_text(), "간");
    assert_eq!(s.rendered_view(), "간다");
    for _ in 0..keys.len() {
        s.backspace();
    }
    assert_eq!(s.committed_text(), "");
    assert!(s.composing().is_empty());
}

#[test]
fn backspace_decomposes_syllable() {
    let mut s = Session::new();
    s.append_character('간');
    s.backspace();
    assert_eq!(s.committed_text(), "");
    assert_eq!(s.composing(), &['ㄱ', 'ㅏ']);
    assert_eq!(s.rendered_view(), "가");
    let mut s = Session::new();
    s.append_character('a');
    s.backspace();
    assert_eq!(s.committed_text(), "");
    assert!(s.composing().is_empty());
    s.backspace();
    assert_eq!(s.rendered_view(), "");
}

#[test]
fn finalize_twice_is_once() {
    let mut s = Session::new();
    type_all(&mut s, &['ㄱ', 'ㅏ', 'ㄴ']);
    s.finalize();
    let once = (s.committed_text(), s.composing().to_vec());
    s.finalize();
    assert_eq!((s.committed_text(), s.composing().to_vec()), once);
    assert_eq!(once.0, "간");
}

#[test]
fn punctuation_ends_run() {
    let mut s = Session::new();
    s.append_character('ㄱ');
    s.append_character('.');
    assert_eq!(s.committed_text(), "ㄱ.");
    assert!(s.composing().is_empty());
}

#[test]
fn non_jamo_passes_through() {
    let mut s = Session::new();
    type_all(&mut s, &['ㄱ', 'ㅏ', 'x']);
    assert_eq!(s.committed_text(), "가x");
    assert!(s.composing().is_empty());
}

#[test]
fn typing_gana() {
    let mut s = Session::new();
    type_all(&mut s, &['ㄱ', 'ㅏ', 'ㄴ', 'ㅏ']);
    assert_eq!(s.rendered_view(), "가나");
    assert_eq!(s.commit_line(), "가나");
    assert_eq!(s.rendered_view(), "");
}

#[test]
fn events_drive_session() {
    let mut s = Session::new();
    assert_eq!(s.handle_event(InputEvent::Character('ㅎ')), None);
    assert_eq!(s.handle_event(InputEvent::Character('ㅏ')), None);
    assert_eq!(s.handle_event(InputEvent::Character('ㄴ')), None);
    assert_eq!(s.handle_event(InputEvent::Ignored), None);
    assert_eq!(s.rendered_view(), "한");
    assert_eq!(s.handle_event(InputEvent::Backspace), None);
    assert_eq!(s.rendered_view(), "하");
    assert_eq!(s.handle_event(InputEvent::Enter), Some("하".to_string()));
    assert_eq!(s.committed_text(), "");
    assert!(s.composing().is_empty());
}

#[test]
fn unfinished_run_finalizes_by_cluster() {
    let mut s = Session::new();
    type_all(&mut s, &['ㅗ', 'ㅏ']);
    assert_eq!(s.rendered_view(), "ㅘ");
    assert_eq!(s.commit_line(), "ㅘ");
}

#[test]
fn karacter_keeps_first_lead() {
    let mut k = Karacter::new();
    assert_eq!(k.process_char('ㄱ'), Some('ㄱ'));
    assert_eq!(k.process_char('ㅏ'), None);
    let mut k = Karacter::new();
    assert_eq!(k.process_char('ㅏ'), Some('ㅏ'));
    assert_eq!(k.process_char('ㄴ'), Some('ㄴ'));
    assert_eq!(k.process_char('ㄷ'), None);
}
