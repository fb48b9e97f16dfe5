use germinal::ports::PtyError;
use germinal::rendering::{frame_clear_color, Color};
use germinal::shell_registry::{spawn_step, SpawnAction, SpawnStage};
use germinal::text_style::{font_choice, FontChoice, FontFamilyChoice, TextShaping, TextStyle};

fn choice(family: FontFamilyChoice, shaping: TextShaping) -> FontChoice {
    FontChoice { family, shaping }
}

#[test]
fn monospace_runs_use_the_monospace_family() {
    assert_eq!(
        font_choice(TextStyle::MonospaceBasic, true, true, true),
        choice(FontFamilyChoice::Monospace, TextShaping::Basic)
    );
}

#[test]
fn cjk_and_symbol_runs_use_their_family_when_configured() {
    assert_eq!(font_choice(TextStyle::CjkBasic, true, false, false), choice(FontFamilyChoice::Cjk, TextShaping::Basic));
    assert_eq!(
        font_choice(TextStyle::SymbolBasic, false, true, false),
        choice(FontFamilyChoice::Symbol, TextShaping::Basic)
    );
}

#[test]
fn runs_without_their_family_fall_back_to_advanced_shaping() {
    assert_eq!(
        font_choice(TextStyle::CjkBasic, false, true, true),
        choice(FontFamilyChoice::Complex, TextShaping::Advanced)
    );
    assert_eq!(
        font_choice(TextStyle::SymbolBasic, true, false, false),
        choice(FontFamilyChoice::Monospace, TextShaping::Advanced)
    );
    assert_eq!(
        font_choice(TextStyle::Advanced, true, true, false),
        choice(FontFamilyChoice::Monospace, TextShaping::Advanced)
    );
}

#[test]
fn the_last_clear_command_wins() {
    let red = Color { r: 255, g: 0, b: 0, a: 255 };
    let blue = Color { r: 0, g: 0, b: 255, a: 255 };
    assert_eq!(frame_clear_color(&[Some(red), None, Some(blue), None]), blue);
    assert_eq!(frame_clear_color(&[None, Some(red)]), red);
}

#[test]
fn a_frame_without_clear_uses_the_default_color() {
    let default = Color { r: 5, g: 5, b: 7, a: 255 };
    assert_eq!(frame_clear_color(&[]), default);
    assert_eq!(frame_clear_color(&[None, None]), default);
}

#[test]
fn spawn_steps_follow_the_failure_order() {
    assert_eq!(spawn_step(SpawnStage::SpawningPty, Ok(())), SpawnAction::CreateTerminal);
    assert_eq!(
        spawn_step(SpawnStage::SpawningPty, Err(PtyError::SpawnFailed)),
        SpawnAction::RollBackAndFail(PtyError::SpawnFailed)
    );
    assert_eq!(spawn_step(SpawnStage::CreatingTerminal, Ok(())), SpawnAction::Succeed);
    assert_eq!(
        spawn_step(SpawnStage::CreatingTerminal, Err(PtyError::IoFailed)),
        SpawnAction::ClosePty(PtyError::IoFailed)
    );
    assert_eq!(
        spawn_step(SpawnStage::ClosingPty(PtyError::IoFailed), Ok(())),
        SpawnAction::RollBackAndFail(PtyError::IoFailed)
    );
    assert_eq!(
        spawn_step(SpawnStage::ClosingPty(PtyError::IoFailed), Err(PtyError::SessionNotFound)),
        SpawnAction::Fail(PtyError::SessionNotFound)
    );
}
