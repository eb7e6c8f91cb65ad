use bcms_alphabet::chars::{chars_of, string_of};
use bcms_alphabet::convert::{
    convert, convert_lines, map_replace, NaturalText, Orthography, ORTHOGRAPHY_ERROR,
};
use bcms_alphabet::table::{flipped_replacements, mirrored, replacements, PAIR_COUNT};

fn latin(s: &str) -> NaturalText {
    NaturalText { orthography: Orthography::BCMSLatin, contents: s.to_string() }
}

fn cyrillic(s: &str) -> NaturalText {
    NaturalText { orthography: Orthography::BCMSCyrillic, contents: s.to_string() }
}

fn to_cyrillic(s: &str) -> String {
    convert(Orthography::BCMSCyrillic, latin(s)).contents
}

fn to_latin(s: &str) -> String {
    convert(Orthography::BCMSLatin, cyrillic(s)).contents
}

#[test]
fn same_orthography_is_identity() {
    let r = convert(Orthography::BCMSLatin, latin("Zdravo, svijete! džak"));
    assert_eq!(r.contents, "Zdravo, svijete! džak");
    assert_eq!(r.orthography, Orthography::BCMSLatin);
    let r = convert(Orthography::BCMSCyrillic, cyrillic("Здраво"));
    assert_eq!(r.contents, "Здраво");
    assert_eq!(r.orthography, Orthography::BCMSCyrillic);
}

#[test]
fn result_is_in_target_orthography() {
    assert_eq!(convert(Orthography::BCMSCyrillic, latin("a")).orthography, Orthography::BCMSCyrillic);
    assert_eq!(convert(Orthography::BCMSLatin, cyrillic("а")).orthography, Orthography::BCMSLatin);
}

#[test]
fn converting_twice_is_converting_once() {
    let once = convert(Orthography::BCMSCyrillic, latin("njiva"));
    let once_contents = once.contents.clone();
    let twice = convert(Orthography::BCMSCyrillic, once);
    assert_eq!(twice.contents, once_contents);
    assert_eq!(once_contents, "њива");
}

#[test]
fn round_trip_alphabet_only() {
    let s = "ljubavnježnadžakČaĆaĐuroŠumaŽabaLJNJDŽ";
    let c = to_cyrillic(s);
    let back = convert(Orthography::BCMSLatin, convert(Orthography::BCMSCyrillic, cyrillic(&c)));
    assert_eq!(back.contents, s);
}

#[test]
fn round_trip_every_letter() {
    let s = "abcčćdždđefghijklljmnnjoprsštuvzžABCČĆDŽDĐEFGHIJKLJLMNJNOPRSŠTUVZŽ";
    assert_eq!(to_latin(&to_cyrillic(s)), s);
}

#[test]
fn digraph_dz_before_d() {
    assert_eq!(to_cyrillic("džak"), "џак");
    assert_eq!(to_cyrillic("nadžak"), "наџак");
    assert_eq!(to_cyrillic("DŽAK"), "ЏАК");
}

#[test]
fn digraphs_lj_nj() {
    assert_eq!(to_cyrillic("ljubav"), "љубав");
    assert_eq!(to_cyrillic("konj"), "коњ");
    assert_eq!(to_cyrillic("LJUBICA"), "ЉУБИЦА");
}

#[test]
fn mixed_case_digraph_goes_letter_by_letter() {
    assert_eq!(to_cyrillic("Ljubica"), "Лjубица");
    assert_eq!(to_cyrillic("Njegoš"), "Нjегош");
    assert_eq!(to_cyrillic("Džamija"), "Джамиjа");
}

#[test]
fn non_alphabet_passes_through() {
    assert_eq!(to_cyrillic("123 abc!"), "123 абц!");
    assert_eq!(to_latin("123 абц!"), "123 abc!");
    assert_eq!(to_cyrillic("q w x y ?"), "q w x y ?");
    assert_eq!(to_cyrillic(""), "");
}

#[test]
fn no_word_boundaries() {
    assert_eq!(to_cyrillic("it"), "ит");
}

#[test]
fn cyrillic_to_latin() {
    assert_eq!(to_latin("Љубав"), "LJubav");
    assert_eq!(to_latin("љубав"), "ljubav");
    assert_eq!(to_latin("џак"), "džak");
    assert_eq!(to_latin("ЊЕГОШ"), "NJEGOŠ");
    assert_eq!(to_latin("ђак ћуп чаша"), "đak ćup čaša");
}

#[test]
fn shared_letter_unchanged() {
    assert_eq!(to_cyrillic("j"), "j");
    assert_eq!(to_latin("j"), "j");
    assert_eq!(to_cyrillic("jaje"), "jаjе");
}

#[test]
fn lines_keep_count_and_order() {
    let lines = vec!["prvi".to_string(), "".to_string(), "treći red".to_string()];
    let out = convert_lines(Orthography::BCMSLatin, Orthography::BCMSCyrillic, &lines);
    assert_eq!(out, vec!["први".to_string(), "".to_string(), "трећи ред".to_string()]);
    let same = convert_lines(Orthography::BCMSLatin, Orthography::BCMSLatin, &lines);
    assert_eq!(same, lines);
    assert!(convert_lines(Orthography::BCMSLatin, Orthography::BCMSCyrillic, &vec![]).is_empty());
}

#[test]
fn parse_orthography() {
    assert_eq!(Orthography::from_str("LATIN"), Ok(Orthography::BCMSLatin));
    assert_eq!(Orthography::from_str("CYRILLIC"), Ok(Orthography::BCMSCyrillic));
    assert_eq!(Orthography::from_str("latin"), Err(ORTHOGRAPHY_ERROR));
    assert_eq!(Orthography::from_str(""), Err("Must use either LATIN or CYRILLIC as inputs."));
    assert_eq!(Orthography::from_str("LATINX"), Err(ORTHOGRAPHY_ERROR));
}

#[test]
fn other_orthography() {
    assert_eq!(Orthography::BCMSLatin.other(), Orthography::BCMSCyrillic);
    assert_eq!(Orthography::BCMSCyrillic.other(), Orthography::BCMSLatin);
}

#[test]
fn tables_are_mirrors() {
    let fwd = replacements();
    let back = flipped_replacements();
    assert_eq!(fwd.len(), PAIR_COUNT);
    assert_eq!(back.len(), PAIR_COUNT);
    for i in 0..PAIR_COUNT {
        assert_eq!(fwd[i].0, back[i].1);
        assert_eq!(fwd[i].1, back[i].0);
    }
    assert_eq!(fwd[5], ("dž", "џ"));
    assert_eq!(mirrored(&[("a", "b")]), vec![("b", "a")]);
}

#[test]
fn map_replace_is_ordered_and_non_overlapping() {
    let t = "aaa".to_string();
    assert_eq!(map_replace(&[("aa", "b")], &t), "ba");
    assert_eq!(map_replace(&[("a", "b"), ("b", "c")], &t), "ccc");
    assert_eq!(map_replace(&[], &t), "aaa");
    assert_eq!(map_replace(&[("", "x")], &"ab".to_string()), "xaxbx");
    assert_eq!(map_replace(&[("", "x")], &String::new()), "x");
}

#[test]
fn characters_round_trip() {
    let v = chars_of("ž1a");
    assert_eq!(v, vec!['ž', '1', 'a']);
    assert_eq!(string_of(&v), "ž1a");
    assert_eq!(string_of(&vec![]), "");
}
