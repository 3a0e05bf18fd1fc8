use xander::ability::{ability_modifier, Ability, Check, Skill};
use xander::creature::Creature;
use xander::die::{Die, D20};
use xander::error::RuleError;
use xander::identity::Identity;
use xander::modifier::Modifier;
use xander::proficiency::{Proficiency, ProficiencyType};
use xander::roll::Roll;
use xander::rolls::Rolls;

fn with_scores(scores: &[(Ability, u32)]) -> Creature {
    let mut c = Creature::new();
    for (a, s) in scores {
        c.set_score(*a, *s);
    }
    c
}

fn d20_showing(v: i32) -> Rolls {
    let mut r = Rolls::new();
    r.add(&D20, vec![Roll::from(v)]);
    r
}

#[test]
fn check_and_save() {
    let mut ent = with_scores(&[
        (Ability::Strength, 2),
        (Ability::Dexterity, 5),
        (Ability::Constitution, 10),
        (Ability::Intelligence, 12),
        (Ability::Wisdom, 17),
        (Ability::Charisma, 13),
    ]);

    ent.add_proficiency(
        Proficiency::Checks(Check::Skill(Skill::Performance)),
        ProficiencyType::Full,
    );

    println!("{ent:?}");

    println!("{:?}", ent.check(Check::Skill(Skill::History)));
}

#[test]
fn proficiency() {
    let mut ent = Creature::new();

    ent.add_proficiency(Proficiency::Saves(Ability::Dexterity), ProficiencyType::Full);
    ent.add_proficiency(Proficiency::Checks(Check::Skill(Skill::History)), ProficiencyType::Full);

    println!("{:?}", ent.proficiencies());
}

#[test]
fn skill_proficiencies() {
    let mut rogue = with_scores(&[
        (Ability::Strength, 2),
        (Ability::Dexterity, 20),
        (Ability::Constitution, 10),
        (Ability::Intelligence, 12),
        (Ability::Wisdom, 17),
        (Ability::Charisma, 13),
    ]);

    rogue.add_proficiency(
        Proficiency::Checks(Check::Skill(Skill::Persuasion)),
        ProficiencyType::Full,
    );
    rogue.add_proficiency(
        Proficiency::Checks(Check::Skill(Skill::Stealth)),
        ProficiencyType::Expertise,
    );
    rogue.add_proficiency(
        Proficiency::Checks(Check::Skill(Skill::History)),
        ProficiencyType::Half,
    );

    println!(
        "{:?}",
        rogue.check(Check::Skill(Skill::Stealth)).unwrap().then(Modifier::advantage(&D20))
    );

    println!("{:?}", rogue.check(Check::Skill(Skill::Persuasion)));

    println!("{:?}", rogue.check(Check::Skill(Skill::History)));
}

#[test]
fn ability_modifiers() {
    assert_eq!(ability_modifier(10), 0);
    assert_eq!(ability_modifier(7), -2);
    assert_eq!(ability_modifier(20), 5);
    assert_eq!(ability_modifier(11), 0);
    assert_eq!(ability_modifier(0), -5);
    assert_eq!(ability_modifier(u32::MAX), 2147483642);
}

#[test]
fn proficiency_scaling() {
    let c = Creature::new();
    assert_eq!(ProficiencyType::Full.bonus(&c, 2), 2);
    assert_eq!(ProficiencyType::Half.bonus(&c, 2), 1);
    assert_eq!(ProficiencyType::Expertise.bonus(&c, 2), 4);
    assert_eq!(ProficiencyType::Half.bonus(&c, 3), 1);
    assert_eq!(ProficiencyType::Half.bonus(&c, -3), -2);
}

#[test]
fn expertise_check_end_to_end() {
    let mut rogue = with_scores(&[(Ability::Dexterity, 20)]);
    rogue.add_proficiency(
        Proficiency::Checks(Check::Skill(Skill::Stealth)),
        ProficiencyType::Expertise,
    );
    let rolls = rogue.check_from(Check::Skill(Skill::Stealth), d20_showing(10)).unwrap();
    assert_eq!(rolls.total(), 19);

    let live = rogue.check(Check::Skill(Skill::Stealth)).unwrap();
    let d20 = live.get(&D20);
    assert_eq!(d20.len(), 1);
    assert_eq!(live.total(), d20[0].value() + 9);
}

#[test]
fn check_without_proficiency_adds_only_modifier() {
    let c = with_scores(&[(Ability::Wisdom, 17)]);
    let rolls = c.check_from(Check::Skill(Skill::Insight), d20_showing(4)).unwrap();
    assert_eq!(rolls.total(), 7);
    let rolls = c.check_from(Check::Ability(Ability::Wisdom), d20_showing(4)).unwrap();
    assert_eq!(rolls.total(), 7);
}

#[test]
fn half_proficiency_rounds_down() {
    let mut c = with_scores(&[(Ability::Intelligence, 12)]);
    c.add_proficiency(Proficiency::Checks(Check::Skill(Skill::History)), ProficiencyType::Half);
    let rolls = c.check_from(Check::Skill(Skill::History), d20_showing(10)).unwrap();
    assert_eq!(rolls.total(), 12);
}

#[test]
fn save_uses_ability_modifier_and_save_proficiency() {
    let mut c = with_scores(&[(Ability::Constitution, 14)]);
    let plain = c.save_from(Ability::Constitution, d20_showing(8)).unwrap();
    assert_eq!(plain.total(), 10);
    c.add_proficiency(Proficiency::Saves(Ability::Constitution), ProficiencyType::Full);
    let proficient = c.save_from(Ability::Constitution, d20_showing(8)).unwrap();
    assert_eq!(proficient.total(), 12);
    let live = c.save(Ability::Constitution).unwrap();
    let d20 = live.get(&D20);
    assert_eq!(live.total(), d20[0].value() + 4);
}

#[test]
fn missing_score_is_reported() {
    let c = with_scores(&[(Ability::Strength, 10)]);
    assert_eq!(
        c.check(Check::Skill(Skill::Stealth)).err(),
        Some(RuleError::MissingAbilityScore(Ability::Dexterity))
    );
    assert_eq!(
        c.save(Ability::Charisma).err(),
        Some(RuleError::MissingAbilityScore(Ability::Charisma))
    );
    assert!(c.check(Check::Skill(Skill::Athletics)).is_ok());
}

#[test]
fn proficiencies_insert_and_lookup() {
    let mut c = Creature::new();
    let stealth = Proficiency::Checks(Check::Skill(Skill::Stealth));
    assert_eq!(c.proficient(stealth), None);
    c.add_proficiency(stealth, ProficiencyType::Full);
    assert_eq!(c.proficient(stealth), Some(ProficiencyType::Full));
    c.add_proficiency(stealth, ProficiencyType::Expertise);
    assert_eq!(c.proficient(stealth), Some(ProficiencyType::Expertise));
    assert_eq!(c.proficiencies().has(Proficiency::Saves(Ability::Dexterity)), None);
}

#[test]
fn scores_and_modifiers() {
    let mut c = Creature::new();
    assert_eq!(c.score(Ability::Wisdom), None);
    assert_eq!(c.modifier(Ability::Wisdom), None);
    c.set_score(Ability::Wisdom, 7);
    assert_eq!(c.score(Ability::Wisdom), Some(7));
    assert_eq!(c.modifier(Ability::Wisdom), Some(-2));
    assert_eq!(c.proficiency_bonus(), 2);
}

#[test]
fn skills_rest_on_abilities() {
    assert_eq!(Skill::Stealth.base(), Ability::Dexterity);
    assert_eq!(Skill::Athletics.base(), Ability::Strength);
    assert_eq!(Skill::AnimalHandling.base(), Ability::Wisdom);
    assert_eq!(Check::Skill(Skill::Arcana).base(), Ability::Intelligence);
    assert_eq!(Check::Ability(Ability::Charisma).base(), Ability::Charisma);
}

#[test]
fn identities() {
    assert_eq!(Ability::Strength.id(), "5E::ABILITY::STRENGTH");
    assert_eq!(Skill::SleightOfHand.id(), "5E::SKILL::SLEIGHTOFHAND");
    assert_eq!(Proficiency::Saves(Ability::Dexterity).id(), "5E::PROFICIENCY::SAVES");
    assert_eq!(ProficiencyType::Expertise.id(), "5E::PROFICIENCY_TYPE::EXPERTISE");
}
