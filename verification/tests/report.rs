use hcor::config::report::{decimal_text, join};
use hcor::config::verify::{VerifError, VerifErrorKind};
use hcor::hackstead::plant;

fn strings(xs: &[&str]) -> Vec<String> {
    xs.iter().map(|s| s.to_string()).collect()
}

#[test]
fn numbers_are_written_in_decimal() {
    assert_eq!(decimal_text(0), "0");
    assert_eq!(decimal_text(7), "7");
    assert_eq!(decimal_text(10), "10");
    assert_eq!(decimal_text(4096), "4096");
    assert_eq!(decimal_text(usize::MAX), usize::MAX.to_string());
}

#[test]
fn joining_puts_the_separator_between_parts() {
    assert_eq!(join(&strings(&[]), ", or "), "");
    assert_eq!(join(&strings(&["egg"]), ", or "), "egg");
    assert_eq!(join(&strings(&["egg", "bread", "cake"]), ", or "), "egg, or bread, or cake");
}

#[test]
fn unknown_names_suggest_close_ones() {
    let k = VerifErrorKind::UnknownItem("bred".to_string());
    assert_eq!(
        k.text(&strings(&["bread", "breed"])),
        "referenced item bred, but no item with this name could be found. Perhaps you meant bread, or breed?"
    );
    let k = VerifErrorKind::UnknownPlantSkill(plant::Conf(12), "Blom".to_string());
    assert_eq!(
        k.text(&strings(&["Bloom"])),
        "referenced skill Blom on plant conf 12, but no skill with this name on this plant could be found. Perhaps you meant Bloom?"
    );
    let k = VerifErrorKind::UnknownPlant("cofea".to_string());
    assert_eq!(
        k.text(&strings(&[])),
        "referenced plant cofea, but no plant with this name could be found. Perhaps you meant ?"
    );
    let k = VerifErrorKind::Custom("broken".to_string());
    assert_eq!(k.text(&strings(&["ignored"])), "broken");
}

#[test]
fn errors_list_where_they_were_found_outermost_first() {
    let e = VerifError::new(VerifErrorKind::UnknownItem("pie".to_string()))
        .noted("in the art field".to_string())
        .noted("in a recipe named \"Bake\"".to_string());
    assert_eq!(
        e.text(&strings(&["pear"])),
        "I ran into trouble verifying your config \n> in a recipe named \"Bake\"\n> in the art field\nas referenced item pie, but no item with this name could be found. Perhaps you meant pear?"
    );
    let e = VerifError::custom("nothing here");
    assert_eq!(e.text(&strings(&[])), "I ran into trouble verifying your config \n\nas nothing here");
}

#[test]
fn names_become_emoji_codes() {
    assert_eq!(hcor::frontend::emojify("nest egg"), ":nest_egg:");
    assert_eq!(hcor::frontend::emojify("bread"), ":bread:");
    assert_eq!(hcor::frontend::emojify(" a  b "), ":_a__b_:");
    assert_eq!(hcor::frontend::emojify(""), "::");
    assert_eq!(hcor::frontend::emojify("crème brûlée"), ":crème_brûlée:");
}
