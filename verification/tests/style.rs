use atc::style::{
    apply, colors_enabled, cost_style, current_mode, dim, render_cost, render_dash, render_status,
    render_work_unit_status, set_color_mode, status_style, strong, work_unit_status_style,
    ColorMode, ColorState, Style,
};
use atc::types::{Cost, CostBand, Status, WorkUnitStatus};

fn colors(mode: ColorMode) -> bool {
    colors_enabled(mode, false, &None, false)
}

fn cost(amount: f64) -> Option<Cost> {
    Some(Cost {
        amount: format!("{amount:.2}"),
        band: if amount >= 50.0 {
            CostBand::High
        } else if amount >= 20.0 {
            CostBand::Notable
        } else {
            CostBand::Low
        },
    })
}

#[test]
fn always_emits_ansi() {
    let out = apply("hello", Style::Red, colors(ColorMode::Always));
    assert!(out.contains("\x1b["), "expected ANSI escape, got {out:?}");
}

#[test]
fn never_emits_no_ansi() {
    let out = apply("hello", Style::Red, colors(ColorMode::Never));
    assert_eq!(out, "hello");
}

#[test]
fn render_status_never_is_plain() {
    let colors = colors(ColorMode::Never);
    assert_eq!(render_status(Status::Running, colors), "running");
    assert_eq!(render_status(Status::Done, colors), "done");
}

#[test]
fn render_work_unit_status_never_is_plain() {
    let colors = colors(ColorMode::Never);
    assert_eq!(render_work_unit_status(WorkUnitStatus::Active, colors), "active");
    assert_eq!(render_work_unit_status(WorkUnitStatus::Merged, colors), "merged");
    assert_eq!(render_work_unit_status(WorkUnitStatus::Closed, colors), "closed");
    assert_eq!(
        render_work_unit_status(WorkUnitStatus::Abandoned, colors),
        "abandoned"
    );
}

#[test]
fn render_work_unit_status_always_emits_ansi() {
    for s in [
        WorkUnitStatus::Active,
        WorkUnitStatus::Merged,
        WorkUnitStatus::Closed,
        WorkUnitStatus::Abandoned,
    ] {
        let out = render_work_unit_status(s, colors(ColorMode::Always));
        assert!(
            out.contains("\x1b["),
            "expected ANSI escape for {s:?}, got {out:?}"
        );
        assert!(out.contains(s.as_str()));
    }
}

#[test]
fn render_cost_threshold_styles() {
    let colors = colors(ColorMode::Always);
    assert!(render_cost(&cost(60.0), colors).contains("\x1b["));
    assert!(render_cost(&cost(25.0), colors).contains("\x1b["));
    assert!(render_cost(&cost(1.0), colors).contains("$1.00"));
    assert!(render_cost(&None, colors).contains('-'));
}

#[test]
fn color_mode_parses() {
    assert_eq!(ColorMode::parse("auto").unwrap(), ColorMode::Auto);
    assert_eq!(ColorMode::parse("ALWAYS").unwrap(), ColorMode::Always);
    assert_eq!(ColorMode::parse("never").unwrap(), ColorMode::Never);
    assert!(ColorMode::parse("nope").is_err());
}

#[test]
fn color_mode_is_remembered() {
    let mut state = ColorState { code: 0 };
    for mode in [ColorMode::Never, ColorMode::Always, ColorMode::Auto] {
        set_color_mode(&mut state, mode);
        assert_eq!(current_mode(&state), mode);
    }
}

#[test]
fn colors_in_auto_mode_follow_the_environment() {
    let on = Some("1".to_string());
    let off = Some("0".to_string());
    assert!(colors_enabled(ColorMode::Auto, false, &None, true));
    assert!(!colors_enabled(ColorMode::Auto, false, &None, false));
    assert!(!colors_enabled(ColorMode::Auto, true, &on, true));
    assert!(colors_enabled(ColorMode::Auto, false, &on, false));
    assert!(!colors_enabled(ColorMode::Auto, false, &off, false));
    assert!(colors_enabled(ColorMode::Always, true, &None, false));
    assert!(!colors_enabled(ColorMode::Never, false, &on, true));
}

#[test]
fn styles_are_chosen_by_status() {
    assert_eq!(status_style(Status::Running), Style::Cyan);
    assert_eq!(status_style(Status::Done), Style::Green);
    assert_eq!(work_unit_status_style(WorkUnitStatus::Abandoned), Style::Red);
    assert_eq!(cost_style(CostBand::Low), Style::Plain);
    assert_eq!(dim(), Style::Dimmed);
    assert_eq!(strong(), Style::Bold);
    assert_eq!(render_dash(false), "-");
}
