use river_bsp_layout::engine::split_budget;
use river_bsp_layout::parse_gap_cmd;
use river_bsp_layout::parse_split_cmd;
use river_bsp_layout::BSPLayout;
use river_bsp_layout::BSPLayoutError;
use river_bsp_layout::UserCmd;
use river_bsp_layout::PERC_SCALE;

fn zero_gap_layout() -> BSPLayout {
    let mut bsp = BSPLayout::new();
    bsp.set_all_inner_gaps(0);
    bsp.set_all_outer_gaps(0);
    bsp
}

#[test]
fn test_new_defaults() {
    let bsp = BSPLayout::new();
    assert_eq!(
        (bsp.ig_left, bsp.ig_right, bsp.ig_top, bsp.ig_bottom),
        (5, 5, 5, 5)
    );
    assert_eq!(
        (bsp.og_left, bsp.og_right, bsp.og_top, bsp.og_bottom),
        (10, 10, 10, 10)
    );
    assert_eq!((bsp.vsplit_perc, bsp.hsplit_perc), (5000, 5000));
    assert!(!bsp.start_hsplit);
    assert!(!bsp.reversed);
}

#[test]
fn test_layout_name() {
    let mut bsp = zero_gap_layout();
    let layout = bsp.generate_layout(2, 800, 600, 1, "eDP-1").unwrap();
    assert_eq!(layout.layout_name, "bsp-layout");
}

#[test]
fn test_tiling_covers_canvas_without_gaps() {
    // Cells partition the canvas: count, disjointness and coverage checked
    // pixel-grid-wise on a small canvas.
    let mut bsp = zero_gap_layout();
    bsp.vsplit_perc = 3333;
    bsp.hsplit_perc = 6667;
    for n in 1..=9u32 {
        let layout = bsp.generate_layout(n, 64, 48, 1, "eDP-1").unwrap();
        assert_eq!(layout.views.len(), n as usize);
        let mut area: u64 = 0;
        for v in &layout.views {
            assert!(v.x >= 0 && v.y >= 0);
            assert!(v.width >= 1 && v.height >= 1);
            assert!(v.x as u64 + v.width as u64 <= 64);
            assert!(v.y as u64 + v.height as u64 <= 48);
            area += v.width as u64 * v.height as u64;
        }
        for (i, a) in layout.views.iter().enumerate() {
            for b in layout.views.iter().skip(i + 1) {
                let x_apart =
                    a.x + a.width as i32 <= b.x || b.x + b.width as i32 <= a.x;
                let y_apart =
                    a.y + a.height as i32 <= b.y || b.y + b.height as i32 <= a.y;
                assert!(x_apart || y_apart);
            }
        }
        // Disjoint cells inside the canvas whose areas sum to the whole
        // canvas leave no pixel uncovered.
        assert_eq!(area, 64 * 48);
    }
}

#[test]
fn test_start_hsplit_divides_top_bottom_first() {
    let mut bsp = zero_gap_layout();
    bsp.start_hsplit = true;
    let layout = bsp.generate_layout(2, 1920, 1080, 1, "eDP-1").unwrap();
    let first = layout.views.get(0).unwrap();
    let second = layout.views.get(1).unwrap();
    assert_eq!((first.x, first.y, first.width, first.height), (0, 0, 1920, 540));
    assert_eq!(
        (second.x, second.y, second.width, second.height),
        (0, 540, 1920, 540)
    );
}

#[test]
fn test_reverse_two_views() {
    let mut bsp = zero_gap_layout();
    bsp.reversed = true;
    let layout = bsp.generate_layout(2, 1920, 1080, 1, "eDP-1").unwrap();
    let first = layout.views.get(0).unwrap();
    let second = layout.views.get(1).unwrap();
    assert_eq!(
        (first.x, first.y, first.width, first.height),
        (960, 0, 960, 1080)
    );
    assert_eq!(
        (second.x, second.y, second.width, second.height),
        (0, 0, 960, 1080)
    );
}

#[test]
fn test_generate_layout_rejects_out_of_range_shares() {
    let mut bsp = zero_gap_layout();
    bsp.vsplit_perc = 0;
    match bsp.generate_layout(1, 1920, 1080, 1, "eDP-1") {
        Err(BSPLayoutError::LayoutError(_)) => {}
        _ => panic!("a zero vertical share must fail layout generation"),
    }
    bsp.vsplit_perc = PERC_SCALE;
    assert!(bsp.generate_layout(1, 1920, 1080, 1, "eDP-1").is_err());
    bsp.vsplit_perc = 5000;
    bsp.hsplit_perc = PERC_SCALE;
    assert!(bsp.generate_layout(1, 1920, 1080, 1, "eDP-1").is_err());
    bsp.hsplit_perc = 5000;
    assert!(bsp.generate_layout(1, 1920, 1080, 1, "eDP-1").is_ok());
}

#[test]
fn test_generate_layout_rejects_degenerate_canvas() {
    let mut bsp = BSPLayout::new();
    bsp.set_all_inner_gaps(0);
    bsp.set_all_outer_gaps(600);
    match bsp.generate_layout(2, 1000, 1300, 1, "eDP-1") {
        Err(BSPLayoutError::LayoutError(_)) => {}
        _ => panic!("outer gaps that swallow the width must fail"),
    }
    match bsp.generate_layout(2, 1300, 1000, 1, "eDP-1") {
        Err(BSPLayoutError::LayoutError(_)) => {}
        _ => panic!("outer gaps that swallow the height must fail"),
    }
    let layout = bsp.generate_layout(2, 1300, 1300, 1, "eDP-1").unwrap();
    assert_eq!(layout.views.len(), 2);
}

#[test]
fn test_inc_dec_clamp() {
    let mut bsp = BSPLayout::new();
    bsp.vsplit_perc = 5000;
    bsp.user_cmd("inc-vsplit 0.9".to_string(), None, "eDP-1")
        .unwrap();
    assert_eq!(bsp.vsplit_perc, 9999);

    bsp.vsplit_perc = 5000;
    bsp.user_cmd("dec-vsplit 0.9".to_string(), None, "eDP-1")
        .unwrap();
    assert_eq!(bsp.vsplit_perc, 1);
}

#[test]
fn test_set_command_idempotent() {
    let mut once = BSPLayout::new();
    once.user_cmd(
        "split-perc 0.3 og-left 7 ig-top 2 start-hsplit".to_string(),
        None,
        "eDP-1",
    )
    .unwrap();
    let mut twice = BSPLayout::new();
    for _ in 0..2 {
        twice
            .user_cmd(
                "split-perc 0.3 og-left 7 ig-top 2 start-hsplit".to_string(),
                None,
                "eDP-1",
            )
            .unwrap();
    }
    assert_eq!(
        (once.vsplit_perc, once.hsplit_perc, once.og_left, once.ig_top),
        (
            twice.vsplit_perc,
            twice.hsplit_perc,
            twice.og_left,
            twice.ig_top
        )
    );
    assert_eq!(once.start_hsplit, twice.start_hsplit);
    assert_eq!(once.reversed, twice.reversed);
}

#[test]
fn test_failed_command_leaves_config_untouched() {
    let mut bsp = BSPLayout::new();
    let before = (
        bsp.ig_left, bsp.ig_right, bsp.ig_top, bsp.ig_bottom, bsp.og_left, bsp.og_right,
        bsp.og_top, bsp.og_bottom, bsp.vsplit_perc, bsp.hsplit_perc, bsp.start_hsplit,
        bsp.reversed,
    );
    // A later malformed sub-effect must not let the earlier one through.
    match bsp.user_cmd("ig-left 3 bogus-flag 7".to_string(), None, "eDP-1") {
        Err(BSPLayoutError::CmdError(_)) => {}
        _ => panic!("an unknown keyword must fail the whole command"),
    }
    assert!(bsp
        .user_cmd("ig-left 3 split-perc 1.5".to_string(), None, "eDP-1")
        .is_err());
    assert!(bsp
        .user_cmd("reverse start-hsplit start-vsplit".to_string(), None, "eDP-1")
        .is_err());
    let after = (
        bsp.ig_left, bsp.ig_right, bsp.ig_top, bsp.ig_bottom, bsp.og_left, bsp.og_right,
        bsp.og_top, bsp.og_bottom, bsp.vsplit_perc, bsp.hsplit_perc, bsp.start_hsplit,
        bsp.reversed,
    );
    assert_eq!(before, after);
}

#[test]
fn test_malformed_commands_fail() {
    let mut bsp = BSPLayout::new();
    assert!(bsp.user_cmd("".to_string(), None, "eDP-1").is_err());
    assert!(bsp.user_cmd("ig-left".to_string(), None, "eDP-1").is_err());
    assert!(bsp
        .user_cmd("ig-left twelve".to_string(), None, "eDP-1")
        .is_err());
    assert!(bsp
        .user_cmd("ig-left -4".to_string(), None, "eDP-1")
        .is_err());
    assert!(bsp
        .user_cmd("ig-left 1 ig-left 2".to_string(), None, "eDP-1")
        .is_err());
    assert!(bsp
        .user_cmd("inc-vsplit 0.0".to_string(), None, "eDP-1")
        .is_err());
    assert!(bsp
        .user_cmd("split-perc 0..5".to_string(), None, "eDP-1")
        .is_err());
    assert!(bsp
        .user_cmd("ig-left 4294967296".to_string(), None, "eDP-1")
        .is_err());
    bsp.user_cmd("ig-left 4294967295".to_string(), None, "eDP-1")
        .unwrap();
    assert_eq!(bsp.ig_left, u32::MAX);
}

#[test]
fn test_handle_methods_directly() {
    let mut cmd = UserCmd::empty();
    cmd.default_outer_gap = Some(20);
    cmd.og_top = Some(3);
    cmd.inc_vsplit = Some(600);
    cmd.reverse = true;
    let mut bsp = BSPLayout::new();
    cmd.handle_outer_gaps(&mut bsp);
    assert_eq!(
        (bsp.og_top, bsp.og_bottom, bsp.og_left, bsp.og_right),
        (3, 20, 20, 20)
    );
    cmd.handle_ch_split(&mut bsp);
    assert_eq!(bsp.vsplit_perc, 5600);
    cmd.handle_reverse(&mut bsp);
    assert!(bsp.reversed);
    cmd.start_hsplit = true;
    cmd.handle_start_split(&mut bsp).unwrap();
    assert!(bsp.start_hsplit);
    cmd.start_vsplit = true;
    assert!(cmd.handle_start_split(&mut bsp).is_err());
    cmd.start_hsplit = false;
    cmd.handle_start_split(&mut bsp).unwrap();
    assert!(!bsp.start_hsplit);
    cmd.vsplit_perc = Some(1234);
    cmd.handle_set_split(&mut bsp);
    assert_eq!(bsp.vsplit_perc, 1234);
    cmd.default_inner_gap = Some(9);
    cmd.handle_inner_gaps(&mut bsp);
    assert_eq!(
        (bsp.ig_top, bsp.ig_bottom, bsp.ig_left, bsp.ig_right),
        (9, 9, 9, 9)
    );
}

#[test]
fn test_parse_gap_cmd_values() {
    assert_eq!(parse_gap_cmd("ig-left 42").unwrap(), 42);
    assert_eq!(parse_gap_cmd("outer-gap 0").unwrap(), 0);
    assert_eq!(parse_gap_cmd("og-top 4294967295").unwrap(), u32::MAX);
    match parse_gap_cmd("ig-left twelve") {
        Err(BSPLayoutError::CmdError(_)) => {}
        _ => panic!("a non-numeric gap argument must fail"),
    }
    assert!(parse_gap_cmd("ig-left 4294967296").is_err());
    assert!(parse_gap_cmd("ig-left -1").is_err());
}

#[test]
fn test_parse_split_cmd_values() {
    assert_eq!(parse_split_cmd("split-perc 0.25").unwrap(), 2500);
    assert_eq!(parse_split_cmd("vsplit-perc 0.5").unwrap(), 5000);
    assert_eq!(parse_split_cmd("hsplit-perc 0.9999").unwrap(), 9999);
    assert_eq!(parse_split_cmd("split-perc 0.0001").unwrap(), 1);
    match parse_split_cmd("split-perc 1.0") {
        Err(BSPLayoutError::CmdError(_)) => {}
        _ => panic!("a whole share must be rejected"),
    }
    assert!(parse_split_cmd("split-perc 0.0").is_err());
    assert!(parse_split_cmd("split-perc -0.1").is_err());
    assert!(parse_split_cmd("split-perc half").is_err());
}

#[test]
fn test_split_budget_values() {
    // One view splits nothing; each halving level adds gap + 1.
    assert_eq!(split_budget(1, 5), 0);
    assert_eq!(split_budget(2, 5), 6);
    assert_eq!(split_budget(4, 0), 2);
    assert_eq!(split_budget(u32::MAX, 0), 32);
}

#[test]
fn test_tiny_canvas_still_counts() {
    // A one-pixel canvas cannot be tiled, but the engine still returns one
    // one-pixel cell per view.
    let mut bsp = zero_gap_layout();
    let layout = bsp.generate_layout(4, 1, 1, 1, "eDP-1").unwrap();
    assert_eq!(layout.views.len(), 4);
    for v in &layout.views {
        assert_eq!((v.width, v.height), (1, 1));
    }
}

#[test]
fn test_extreme_share_clamps_to_one_pixel() {
    let mut bsp = zero_gap_layout();
    bsp.vsplit_perc = 1;
    let layout = bsp.generate_layout(2, 1920, 1080, 1, "eDP-1").unwrap();
    let first = layout.views.get(0).unwrap();
    let second = layout.views.get(1).unwrap();
    // floor(1920 * 0.0001) = 0, clamped up to one pixel.
    assert_eq!((first.x, first.width), (0, 1));
    assert_eq!((second.x, second.width), (1, 1919));
}
