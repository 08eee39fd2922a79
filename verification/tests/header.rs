use deepseek_tui::header::{
    choose_layout, format_token_count, model_display_name, plan_header, truncate_text, usage_text,
    HeaderLayout, HeaderWidths, SegmentRole,
};

#[test]
fn format_token_count_small_values_are_plain() {
    assert_eq!(format_token_count(0), "0");
    assert_eq!(format_token_count(7), "7");
    assert_eq!(format_token_count(999), "999");
}

#[test]
fn format_token_count_examples() {
    assert_eq!(format_token_count(1_000), "1.0k");
    assert_eq!(format_token_count(12_345), "12.3k");
    assert_eq!(format_token_count(999_999), "1000.0k");
    assert_eq!(format_token_count(1_000_000), "1.0M");
    assert_eq!(format_token_count(1_234_567), "1.2M");
    assert_eq!(format_token_count(u32::MAX), "4295.0M");
}

fn float_reference(tokens: u32) -> String {
    if tokens >= 1_000_000 {
        format!("{:.1}M", tokens as f64 / 1_000_000.0)
    } else if tokens >= 1_000 {
        format!("{:.1}k", tokens as f64 / 1_000.0)
    } else {
        format!("{tokens}")
    }
}

#[test]
fn format_token_count_matches_float_formatting_below_a_million() {
    for t in 0..1_000_000u32 {
        assert_eq!(format_token_count(t), float_reference(t), "tokens = {t}");
    }
}

#[test]
fn format_token_count_matches_float_formatting_on_ties_and_samples() {
    // Every value exactly halfway between two printed tenths of a million.
    let mut k: u64 = 0;
    while k * 100_000 + 50_000 <= u32::MAX as u64 {
        let t = (k * 100_000 + 50_000) as u32;
        assert_eq!(format_token_count(t), float_reference(t), "tokens = {t}");
        k += 1;
    }
    let mut t: u64 = 1_000_000;
    while t <= u32::MAX as u64 {
        assert_eq!(format_token_count(t as u32), float_reference(t as u32), "tokens = {t}");
        t += 99_991;
    }
}

#[test]
fn truncate_text_cuts_by_characters() {
    assert_eq!(truncate_text("abcdefghijkl", 10, 7), "abcdefg...");
    assert_eq!(truncate_text("abcdefghij", 10, 7), "abcdefghij");
    assert_eq!(truncate_text("ééééééééééé", 10, 7), "ééééééé...");
}

#[test]
fn model_display_name_limits_to_25_chars() {
    let long = "deepseek-reasoner-extra-long-model-name";
    let shown = model_display_name(long);
    assert_eq!(shown, "deepseek-reasoner-extr...");
    assert_eq!(shown.chars().count(), 25);
    assert_eq!(model_display_name("deepseek-chat"), "deepseek-chat");
}

#[test]
fn usage_text_examples() {
    assert_eq!(usage_text(0, None, None, true), None);
    // Without tokens and with a negligible cost the context percentage is not shown.
    assert_eq!(usage_text(0, Some(40), None, true), None);
    assert_eq!(usage_text(12_345, None, None, true), Some("session 12.3k".to_string()));
    assert_eq!(
        usage_text(12_345, Some(7), Some("$0.01"), false),
        Some("session 12.3k · ctx 7% · $0.01".to_string())
    );
    assert_eq!(usage_text(0, Some(100), Some("$1.00"), false), Some("ctx 100% · $1.00".to_string()));
    assert_eq!(usage_text(0, None, Some("$1.00"), false), Some("$1.00".to_string()));
}

#[test]
fn usage_text_with_a_cost_that_compares_neither_way() {
    // A NaN cost is neither below the threshold nor shown.
    let cost = f64::NAN;
    let negligible = cost < 0.0001;
    let shown = cost >= 0.0001;
    assert!(!negligible && !shown);
    assert_eq!(usage_text(0, Some(40), None, negligible), Some("ctx 40%".to_string()));
    assert_eq!(usage_text(0, None, None, negligible), None);
}

#[test]
fn choose_layout_picks_by_width() {
    let w = HeaderWidths { mode: 8, model: 13, separator: 3, streaming: 1, usage: 10 };
    // left 22 + sep 3 + right 12 = 37
    assert_eq!(choose_layout(w, true, 39), HeaderLayout::Full { padding: 2 });
    assert_eq!(choose_layout(w, true, 80), HeaderLayout::Full { padding: 43 });
    assert_eq!(choose_layout(w, true, 38), HeaderLayout::Compact);
    assert_eq!(choose_layout(w, true, 19), HeaderLayout::Compact);
    assert_eq!(choose_layout(w, true, 18), HeaderLayout::Minimal);
    assert_eq!(choose_layout(w, true, 8), HeaderLayout::Minimal);
    assert_eq!(choose_layout(w, true, 7), HeaderLayout::ModeInitial);
    let quiet = HeaderWidths { mode: 8, model: 13, separator: 3, streaming: 0, usage: 0 };
    assert_eq!(choose_layout(quiet, false, 24), HeaderLayout::Full { padding: 2 });
}

fn texts(mode: &str, model: &str, streaming: bool, usage: Option<&str>, width: usize) -> Vec<(String, SegmentRole)> {
    plan_header(mode, model, streaming, usage, width)
        .into_iter()
        .map(|s| (s.text, s.role))
        .collect()
}

#[test]
fn plan_header_full_layout_fills_width() {
    let line = texts("AGENT", "deepseek-chat", true, Some("session 1.0k"), 60);
    let shown: String = line.iter().map(|(t, _)| t.as_str()).collect();
    assert_eq!(shown.chars().count(), 60);
    assert_eq!(line[0], ("[AGENT]".to_string(), SegmentRole::ModeBadge));
    assert_eq!(line[1], (" ".to_string(), SegmentRole::Plain));
    assert_eq!(line[2], ("deepseek-chat".to_string(), SegmentRole::Model));
    assert_eq!(line[3], (" │ ".to_string(), SegmentRole::Separator));
    assert_eq!(line[4].1, SegmentRole::Plain);
    assert_eq!(line[5], ("session 1.0k".to_string(), SegmentRole::Usage));
    assert_eq!(line[6], (" ".to_string(), SegmentRole::Plain));
    assert_eq!(line[7], ("●".to_string(), SegmentRole::Streaming));
    assert_eq!(line.len(), 8);
}

#[test]
fn plan_header_falls_back_when_narrow() {
    let compact = texts("AGENT", "deepseek-reasoner", false, Some("session 1.0k"), 20);
    assert_eq!(compact.len(), 3);
    assert_eq!(compact[2], ("deepsee...".to_string(), SegmentRole::Model));
    let minimal = texts("AGENT", "deepseek-reasoner", false, None, 9);
    assert_eq!(minimal, vec![("[AGENT]".to_string(), SegmentRole::ModeBadge)]);
    let tiny = texts("AGENT", "deepseek-reasoner", false, None, 3);
    assert_eq!(tiny, vec![("A".to_string(), SegmentRole::ModeInitial)]);
    let none = texts("", "m", false, None, 1);
    assert_eq!(none, vec![("".to_string(), SegmentRole::ModeInitial)]);
}

#[test]
fn plan_header_measures_display_width_not_bytes() {
    // Wide characters take two columns each: badge "[A日本]" 7 + 1 + model 4 = 12 columns.
    let line = texts("A日本", "模型", false, None, 14);
    assert_eq!(line.len(), 4);
    assert_eq!(line[3], ("  ".to_string(), SegmentRole::Plain));
    let line = texts("A日本", "模型", false, None, 12);
    assert_eq!(line.len(), 3);
    assert_eq!(line[2].0, "模型");
    let line = texts("A日本", "模型", false, None, 11);
    assert_eq!(line, vec![("[A日本]".to_string(), SegmentRole::ModeBadge)]);
    let line = texts("A日本", "模型", false, None, 6);
    assert_eq!(line, vec![("A".to_string(), SegmentRole::ModeInitial)]);
}
