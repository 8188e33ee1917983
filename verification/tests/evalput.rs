use hcor::config::evalput::{Evalput, OneOfChance, OneOfRow, Repeats};

fn sample() -> Evalput<String> {
    Evalput::All(vec![
        Evalput::Item("egg".to_string()),
        Evalput::OneOf(vec![
            OneOfRow(OneOfChance::Chance(0x3fd0_0000_0000_0000), Evalput::Item("bread".to_string())),
            OneOfRow(OneOfChance::Rest, Evalput::Xp(Repeats::Exactly(3))),
        ]),
        Evalput::Amount(Repeats::Exactly(2), Box::new(Evalput::Item("cake".to_string()))),
        Evalput::Chance(0x3fe0_0000_0000_0000, Box::new(Evalput::Nothing)),
    ])
}

fn items(e: &Evalput<usize>, out: &mut Vec<usize>) {
    match e {
        Evalput::All(xs) => xs.iter().for_each(|x| items(x, out)),
        Evalput::OneOf(rows) => rows.iter().for_each(|OneOfRow(_, x)| items(x, out)),
        Evalput::Amount(_, b) | Evalput::Chance(_, b) => items(b, out),
        Evalput::Item(i) => out.push(*i),
        _ => {}
    }
}

#[test]
fn map_item_keeps_the_shape() {
    let mapped = sample().map_item(&|s: String| s.len());
    let mut found = vec![];
    items(&mapped, &mut found);
    assert_eq!(found, vec![3, 5, 4]);
    match &mapped {
        Evalput::All(xs) => {
            assert_eq!(xs.len(), 4);
            assert!(matches!(&xs[1], Evalput::OneOf(rows) if rows[1].0 == OneOfChance::Rest));
            assert!(matches!(&xs[2], Evalput::Amount(Repeats::Exactly(2), _)));
            assert!(matches!(&xs[3], Evalput::Chance(0x3fe0_0000_0000_0000, _)));
        }
        other => panic!("unexpected {:?}", other),
    }
}

#[test]
fn ok_or_item_fails_on_the_first_failing_item() {
    let known = |s: String| match s.as_str() {
        "egg" => Ok(1usize),
        "bread" => Ok(2),
        "cake" => Ok(3),
        _ => Err(s),
    };
    let ok = sample().ok_or_item(&known).unwrap();
    let mut found = vec![];
    items(&ok, &mut found);
    assert_eq!(found, vec![1, 2, 3]);

    let picky = |s: String| if s == "egg" { Ok(1usize) } else { Err(s) };
    assert_eq!(sample().ok_or_item(&picky).unwrap_err(), "bread");
    let none: Evalput<String> = Evalput::Nothing;
    assert!(matches!(none.ok_or_item(&picky), Ok(Evalput::Nothing)));
}
