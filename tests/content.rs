use xander::choice::{Choice, Choices};
use xander::content::{Condition, Language};
use xander::identity::Identity;

struct Exhaustion(u8);

impl Condition for Exhaustion {}

impl Identity for Exhaustion {
    fn id(&self) -> &'static str {
        "5E::CONDITION::EXHAUSTION"
    }
}

#[test]
fn exhaustion() {
    let s = Exhaustion(1);
    assert_eq!(s.0, 1);
    assert_eq!(s.id(), "5E::CONDITION::EXHAUSTION");
}

struct Goblin;

impl Language for Goblin {
    fn description(&self) -> &'static str {
        "Spoken by goblins."
    }
}

impl Identity for Goblin {
    fn id(&self) -> &'static str {
        "5E::LANGUAGE::GOBLIN"
    }
}

struct Occidural;

impl Language for Occidural {
    fn description(&self) -> &'static str {
        "Homebrew language example."
    }
}

impl Identity for Occidural {
    fn id(&self) -> &'static str {
        "DEUS::LANGUAGE::OCCIDURAL"
    }
}

#[test]
fn langs() {
    let choice: Choice<dyn Language, 2> = Choices::of([&Goblin, &Occidural]);

    choice
        .iter()
        .map(|f| format!("{} => {}", f.id(), f.description()))
        .for_each(|f| println!("{}", f));
}

trait Ability: Identity {}

struct Charisma;

impl Ability for Charisma {}

impl Identity for Charisma {
    fn id(&self) -> &'static str {
        "5E::ABILITY::CHARISMA"
    }
}

struct Strength;

impl Ability for Strength {}

impl Identity for Strength {
    fn id(&self) -> &'static str {
        "5E::ABILITY::STRENGTH"
    }
}

#[test]
fn choice_ability() {
    let c: Choice<dyn Ability, 2> = Choice([&Charisma, &Strength]);
    let v: Vec<_> = c.iter().map(|a| a.id()).collect();

    assert_eq!(v, vec!["5E::ABILITY::CHARISMA", "5E::ABILITY::STRENGTH"])
}

#[test]
fn choice_pick_and_len() {
    let c: Choice<dyn Ability, 2> = Choices::of([&Charisma, &Strength]);
    assert_eq!(c.len(), 2);
    assert_eq!(c.pick(1).map(|a| a.id()), Some("5E::ABILITY::STRENGTH"));
    assert!(c.pick(2).is_none());
}
