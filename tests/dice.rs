use xander::die::{Die, D, D20, D4, D6};
use xander::error::RuleError;
use xander::modifier::{Arithmetic, Modifier, ModifierKind};
use xander::roll::Roll;
use xander::rolls::Rolls;

fn rolls_of(values: &[i32]) -> Vec<Roll> {
    values.iter().map(|v| Roll::from(*v)).collect()
}

#[test]
fn get() {
    let collection = Rolls::default();
    let v = collection.get(&D20);
    assert_eq!(v, Vec::<Roll>::new());
}

#[test]
fn add() {
    let mut collection = Rolls::default();
    let v = vec![1, 2, 3, 4]
        .into_iter()
        .map(Roll::from)
        .collect::<Vec<_>>();

    collection.add(&D20, v.clone());

    assert_eq!(collection.get(&D20), v);
}

#[test]
fn modifiers() {
    let results = D20.roll(13).then(Modifier::add(2));

    assert_eq!(results.modifiers().len(), 1);
}

#[test]
fn indexing() {
    let results = D20.roll(12).extend(D4.roll(13));
    assert_eq!(13, results.get(&D4).len())
}

#[test]
fn test_dice() {
    let d20 = D20;
    let result = d20.roll(1);
    println!("{result:?}");
}

#[test]
fn dyn_dispatch() {
    let v: Vec<Box<dyn Die>> = vec![Box::new(D4), Box::new(D6)];
    let result = v.iter().map(|d| d.roll(1)).collect::<Vec<_>>();
    println!("{result:?}")
}

#[test]
fn dice_arithmetic() {
    let results = D20.roll(1).then(Modifier::add(23));
    println!("{results:?}");
    let total = results.total();
    assert!((24..=43).contains(&total));
}

#[test]
fn advantage() {
    let r = D20
        .roll(2)
        .then(Modifier::advantage(&D20))
        .inspect(|r| println!("{r:?}"))
        .apply();
    match r {
        Ok(v) => panic!("advantage alone resolved to {v}"),
        Err(rest) => {
            let rolls = rest.get(&D20);
            assert_eq!(rolls.iter().filter(|r| !r.hidden()).count(), 1);
        },
    }
}

#[test]
fn test_roll() {
    let die = D::new(10).unwrap();
    let rolls = die.roll(1);
    println!("Rolled a custom die, result: {}", rolls.total());
}

#[test]
fn rolls_stay_in_range_and_spread_evenly() {
    let rolls = D6.roll(6000);
    let values = rolls.get(&D6);
    assert_eq!(values.len(), 6000);
    let mut counts = [0usize; 6];
    for r in &values {
        assert!(!r.hidden());
        let v = r.value();
        assert!((1..=6).contains(&v));
        counts[(v - 1) as usize] += 1;
    }
    for c in counts {
        assert!((800..=1200).contains(&c), "uneven spread: {counts:?}");
    }
}

#[test]
fn custom_die_rolls_in_range() {
    let die = D::new(3).unwrap();
    let rolls = die.roll(300);
    let values = rolls.get(&die);
    assert_eq!(values.len(), 300);
    assert!(values.iter().all(|r| (1..=3).contains(&r.value())));
    assert!(values.iter().any(|r| r.value() != 1));
}

#[test]
fn empty_set_totals_zero() {
    assert_eq!(Rolls::default().total(), 0);
    assert_eq!(Rolls::new().peek(), 0);
}

#[test]
fn repeated_rolls_total() {
    let mut set = Rolls::new();
    set.add(&D6, rolls_of(&[4, 4, 4, 4, 4]));
    assert_eq!(set.total(), 20);
}

#[test]
fn arithmetic_modifiers_apply_to_total() {
    let base = || {
        let mut set = Rolls::new();
        set.add(&D6, rolls_of(&[3, 4]));
        set
    };
    assert_eq!(base().then(Modifier::add(5)).apply().ok(), Some(12));
    assert_eq!(base().then(Modifier::sub(5)).apply().ok(), Some(2));
    assert_eq!(base().then(Modifier::mul(3)).apply().ok(), Some(21));
    assert_eq!(base().then(Modifier::div(2).unwrap()).apply().ok(), Some(3));
}

#[test]
fn division_rounds_down() {
    let mut set = Rolls::new();
    set.add(&D20, rolls_of(&[-7]));
    assert_eq!(set.then(Modifier::div(2).unwrap()).apply().ok(), Some(-4));
    let mut set = Rolls::new();
    set.add(&D20, rolls_of(&[7]));
    assert_eq!(set.then(Modifier::div(-2).unwrap()).apply().ok(), Some(-4));
    assert_eq!(Arithmetic::Div(2).apply(-7), -4);
    assert_eq!(Arithmetic::Div(2).apply(7), 3);
}

#[test]
fn first_arithmetic_modifier_wins() {
    let mut set = Rolls::new();
    set.add(&D6, rolls_of(&[2, 3]));
    let set = set.then(Modifier::add(1)).then(Modifier::mul(10));
    assert_eq!(set.peek(), 6);
    assert_eq!(set.apply().ok(), Some(6));
}

#[test]
fn division_by_zero_is_refused() {
    assert_eq!(Modifier::div(0).err(), Some(RuleError::DivisionByZero));
    assert_eq!(
        Modifier::arithmetic(Arithmetic::Div(0)).err(),
        Some(RuleError::DivisionByZero)
    );
    assert!(Modifier::arithmetic(Arithmetic::Mul(0)).is_ok());
}

#[test]
fn zero_sided_die_is_refused() {
    assert_eq!(D::new(0).err(), Some(RuleError::InvalidDie));
    assert_eq!(D::new(7).map(|d| d.sides()).ok(), Some(7));
}

#[test]
fn advantage_keeps_the_highest() {
    let mut set = Rolls::new();
    set.add(&D20, rolls_of(&[3, 17]));
    let set = set.then(Modifier::advantage(&D20));
    assert_eq!(set.peek(), 17);
    let rest = set.apply().err().unwrap();
    let rolls = rest.get(&D20);
    assert!(rolls[0].hidden());
    assert!(!rolls[1].hidden());
    assert_eq!(rest.total(), 17);
}

#[test]
fn disadvantage_keeps_the_lowest() {
    let mut set = Rolls::new();
    set.add(&D20, rolls_of(&[12, 5, 18]));
    assert_eq!(set.then(Modifier::disadvantage(&D20)).total(), 5);
}

#[test]
fn advantage_hides_other_dice_and_picks_first_tie() {
    let mut set = Rolls::new();
    set.add(&D20, rolls_of(&[9, 14, 14]));
    set.add(&D6, rolls_of(&[6]));
    let rest = set.then(Modifier::advantage(&D20)).apply().err().unwrap();
    let d20s = rest.get(&D20);
    assert_eq!(
        d20s.iter().map(|r| r.hidden()).collect::<Vec<_>>(),
        vec![true, false, true]
    );
    assert!(rest.get(&D6)[0].hidden());
    assert_eq!(rest.total(), 14);
}

#[test]
fn advantage_then_arithmetic() {
    let mut set = Rolls::new();
    set.add(&D20, rolls_of(&[3, 17]));
    let set = set.then(Modifier::advantage(&D20)).then(Modifier::add(2));
    assert_eq!(set.apply().ok(), Some(19));
}

#[test]
fn hidden_rolls_never_count() {
    let mut hidden = Roll::from(100);
    hidden.conceal();
    assert_eq!(hidden.value(), 0);
    assert_eq!(hidden.raw_value(), 100);
    let mut set = Rolls::new();
    set.add(&D20, vec![Roll::from(5), hidden]);
    assert_eq!(set.total(), 5);
}

#[test]
fn shown_roll_counts_again() {
    let mut r = Roll::from(8);
    r.conceal();
    assert!(r.hidden());
    r.show();
    assert!(!r.hidden());
    assert_eq!(r.value(), 8);
}

#[test]
fn extend_concatenates_groups_and_chains() {
    let mut a = Rolls::new();
    a.add(&D6, rolls_of(&[1, 2]));
    let mut b = Rolls::new();
    b.add(&D6, rolls_of(&[3]));
    b.add(&D4, rolls_of(&[4]));
    let b = b.then(Modifier::add(1));
    let merged = a.then(Modifier::advantage(&D6)).extend(b);
    assert_eq!(
        merged.get(&D6).iter().map(|r| r.value()).collect::<Vec<_>>(),
        vec![1, 2, 3]
    );
    assert_eq!(merged.get(&D4).len(), 1);
    let kinds: Vec<ModifierKind> = merged.modifiers().iter().map(|m| m.kind()).collect();
    assert_eq!(
        kinds,
        vec![
            ModifierKind::Advantage(6),
            ModifierKind::Arithmetic(Arithmetic::Add(1))
        ]
    );
    assert_eq!(merged.total(), 4);
}

#[test]
fn extend_order_does_not_change_total() {
    let make = |values: &[i32], four: &[i32]| {
        let mut s = Rolls::new();
        s.add(&D6, rolls_of(values));
        s.add(&D4, rolls_of(four));
        s
    };
    let ab = make(&[1, 2], &[3]).extend(make(&[5], &[]));
    let ba = make(&[5], &[]).extend(make(&[1, 2], &[3]));
    assert_eq!(ab.total(), 11);
    assert_eq!(ba.total(), 11);

    let left = make(&[1], &[2]).extend(make(&[3], &[4])).extend(make(&[5], &[6]));
    let right = make(&[1], &[2]).extend(make(&[3], &[4]).extend(make(&[5], &[6])));
    assert_eq!(left.get(&D6), right.get(&D6));
    assert_eq!(left.get(&D4), right.get(&D4));
    assert_eq!(left.total(), right.total());
}

#[test]
fn modifier_ids_and_symbols() {
    assert_eq!(Modifier::add(1).id(), "OPERATIONS::ADD");
    assert_eq!(Modifier::div(3).unwrap().symbol(), Some("/"));
    assert_eq!(Modifier::advantage(&D20).id(), "5E::ADVANTAGE");
    assert_eq!(Modifier::disadvantage(&D20).id(), "5E::DISADVANTAGE");
    assert_eq!(Modifier::advantage(&D20).symbol(), None);
    assert!(Modifier::mul(2).is_arithmetic());
    assert!(!Modifier::advantage(&D4).is_arithmetic());
}

#[test]
fn extend_order_keeps_total_with_one_chain() {
    let with_advantage = || {
        let mut s = Rolls::new();
        s.add(&D20, rolls_of(&[3, 17]));
        s.then(Modifier::advantage(&D20))
    };
    let plain = || {
        let mut s = Rolls::new();
        s.add(&D20, rolls_of(&[12]));
        s.add(&D6, rolls_of(&[6]));
        s
    };
    assert_eq!(with_advantage().extend(plain()).total(), 17);
    assert_eq!(plain().extend(with_advantage()).total(), 17);
}
