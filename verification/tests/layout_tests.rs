use tilewm::config::{parse_color, Config};
use tilewm::geometry::Rect;
use tilewm::layout::{apply_layout, main_width, LayoutKind};
use tilewm::manager::WmError;

fn rect(x: u32, y: u32, w: u32, h: u32) -> Rect {
    Rect { x, y, w, h }
}

#[test]
fn monocle_gives_every_client_the_full_screen() {
    let screen = rect(0, 0, 1280, 800);
    let clients: Vec<u32> = vec![10, 11, 12];
    let placed = apply_layout(LayoutKind::Monocle, &clients, screen, 550, 1);
    assert_eq!(placed.len(), 3);
    for (i, p) in placed.iter().enumerate() {
        assert_eq!(p.id, clients[i]);
        assert_eq!(p.rect, screen);
    }
}

#[test]
fn stacked_main_splits_main_and_stack_columns() {
    // Ratio 0.55 of a 1000-wide screen: main column 550 wide, one main client.
    let screen = rect(0, 0, 1000, 600);
    let clients: Vec<u32> = vec![1, 2, 3];
    let placed = apply_layout(LayoutKind::StackedMain, &clients, screen, 550, 1);
    assert_eq!(placed.len(), 3);
    assert_eq!(placed[0].rect, rect(0, 0, 550, 600));
    assert_eq!(placed[1].rect, rect(550, 0, 450, 300));
    assert_eq!(placed[2].rect, rect(550, 300, 450, 300));
}

#[test]
fn stacked_main_last_row_absorbs_remainder() {
    // 601 pixels over two stack rows: 300 then 301, ending exactly at the edge.
    let screen = rect(0, 0, 1000, 601);
    let clients: Vec<u32> = vec![1, 2, 3];
    let placed = apply_layout(LayoutKind::StackedMain, &clients, screen, 500, 1);
    assert_eq!(placed[1].rect, rect(500, 0, 500, 300));
    assert_eq!(placed[2].rect, rect(500, 300, 500, 301));
    assert_eq!(placed[2].rect.y + placed[2].rect.h, 601);
}

#[test]
fn stacked_main_with_zero_main_count_uses_full_width_rows() {
    let screen = rect(0, 0, 800, 600);
    let clients: Vec<u32> = vec![7, 8];
    let placed = apply_layout(LayoutKind::StackedMain, &clients, screen, 550, 0);
    assert_eq!(placed[0].rect, rect(0, 0, 800, 300));
    assert_eq!(placed[1].rect, rect(0, 300, 800, 300));
}

#[test]
fn stacked_main_with_main_count_covering_all_uses_full_width_rows() {
    let screen = rect(0, 0, 800, 600);
    let clients: Vec<u32> = vec![7, 8, 9];
    let placed = apply_layout(LayoutKind::StackedMain, &clients, screen, 550, 5);
    for (i, p) in placed.iter().enumerate() {
        assert_eq!(p.rect.x, 0);
        assert_eq!(p.rect.w, 800);
        assert_eq!(p.rect.y, 200 * i as u32);
        assert_eq!(p.rect.h, 200);
    }
}

#[test]
fn stacked_main_empty_client_list_yields_empty_output() {
    let screen = rect(0, 0, 800, 600);
    let clients: Vec<u32> = vec![];
    let placed = apply_layout(LayoutKind::StackedMain, &clients, screen, 550, 1);
    assert!(placed.is_empty());
}

#[test]
fn stacked_main_tiles_the_screen_exactly() {
    // Two main clients, three stack clients: columns partition the width and
    // each column's rows partition the height with no gap or overlap.
    let screen = rect(5, 7, 1003, 601);
    let clients: Vec<u32> = vec![1, 2, 3, 4, 5];
    let placed = apply_layout(LayoutKind::StackedMain, &clients, screen, 600, 2);
    let mw = main_width(1003, 600);
    // Main column.
    assert_eq!(placed[0].rect.x, 5);
    assert_eq!(placed[1].rect.x, 5);
    assert_eq!(placed[0].rect.w, mw);
    assert_eq!(placed[0].rect.y, 7);
    assert_eq!(placed[1].rect.y, placed[0].rect.y + placed[0].rect.h);
    assert_eq!(placed[1].rect.y + placed[1].rect.h, 7 + 601);
    // Stack column.
    for p in &placed[2..] {
        assert_eq!(p.rect.x, 5 + mw);
        assert_eq!(p.rect.w, 1003 - mw);
    }
    assert_eq!(placed[2].rect.y, 7);
    assert_eq!(placed[3].rect.y, placed[2].rect.y + placed[2].rect.h);
    assert_eq!(placed[4].rect.y, placed[3].rect.y + placed[3].rect.h);
    assert_eq!(placed[4].rect.y + placed[4].rect.h, 7 + 601);
}

#[test]
fn parse_color_reads_hex_pairs() {
    assert_eq!(parse_color("#005577"), Ok(0x005577));
    assert_eq!(parse_color("#ffffff"), Ok(0xffffff));
    assert_eq!(parse_color("#AbCdEf"), Ok(0xabcdef));
    assert_eq!(parse_color("#000000"), Ok(0));
}

#[test]
fn parse_color_rejects_malformed_strings() {
    assert_eq!(parse_color("005577"), Err(WmError::Configuration));
    assert_eq!(parse_color("#00557"), Err(WmError::Configuration));
    assert_eq!(parse_color("#0055779"), Err(WmError::Configuration));
    assert_eq!(parse_color("#00557g"), Err(WmError::Configuration));
    assert_eq!(parse_color(""), Err(WmError::Configuration));
}

fn names(list: &[&str]) -> Vec<String> {
    list.iter().map(|s| s.to_string()).collect()
}

#[test]
fn config_build_accepts_a_sound_configuration() {
    let c = Config::build(
        names(&["1", "2", "3"]),
        vec![LayoutKind::StackedMain, LayoutKind::Monocle],
        550,
        1,
        2,
        0,
        16,
        "#005577",
        "#222222",
        names(&["dmenu", "dunst", "polybar"]),
    )
    .unwrap();
    assert_eq!(c.focused_border, 0x005577);
    assert_eq!(c.unfocused_border, 0x222222);
    assert_eq!(c.workspace_names.len(), 3);
    assert!(c.is_floating_class(&"dunst".to_string()));
    assert!(!c.is_floating_class(&"alacritty".to_string()));
}

#[test]
fn config_build_rejects_empty_workspaces() {
    let r = Config::build(
        Vec::new(),
        vec![LayoutKind::StackedMain],
        550,
        1,
        2,
        0,
        16,
        "#005577",
        "#222222",
        Vec::new(),
    );
    assert_eq!(r.err(), Some(WmError::Configuration));
}

#[test]
fn config_build_rejects_out_of_range_ratio() {
    let r = Config::build(
        names(&["1"]),
        vec![LayoutKind::StackedMain],
        990,
        1,
        2,
        0,
        16,
        "#005577",
        "#222222",
        Vec::new(),
    );
    assert_eq!(r.err(), Some(WmError::Configuration));
}

#[test]
fn config_build_rejects_bad_color() {
    let r = Config::build(
        names(&["1"]),
        vec![LayoutKind::StackedMain],
        550,
        1,
        2,
        0,
        16,
        "blue",
        "#222222",
        Vec::new(),
    );
    assert_eq!(r.err(), Some(WmError::Configuration));
}
