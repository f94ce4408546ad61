use overlay_rects::color::rgb;
use overlay_rects::constants::{
    DOT_PADDING, DOT_SIZE, HOTKEY_ID_EXIT, OVERLAY_HEIGHT, OVERLAY_WIDTH, OVERLAY_X, OVERLAY_Y,
    RECT_COUNT, RECT_HEIGHT, RECT_PADDING, RECT_WIDTH, VK_CONTROL,
};
use overlay_rects::geometry::{dot_bounds, point_in_rect, rects_overlap, screen_pos_for_rect, Rect};
use overlay_rects::overlay::{decode_click_point, handle_event, OverlayState, WindowAction, WindowEvent};
use overlay_rects::rect::{generate_random_rects, get_cached_rects, get_rect_at_point, RectCache};
use overlay_rects::rng::{rand_xo_random, XorShiftRng, RNG_SEED};
use overlay_rects::screenshot::{bgra_to_rgba, dib_stride, screenshot_image};

fn r(left: i32, top: i32, right: i32, bottom: i32) -> Rect {
    Rect { left, top, right, bottom }
}

#[test]
fn rgb_packs_blue_green_red() {
    assert_eq!(rgb(255, 0, 255), 0x00FF00FF);
    assert_eq!(rgb(255, 255, 0), 0x0000FFFF);
    assert_eq!(rgb(255, 0, 0), 0x000000FF);
    assert_eq!(rgb(0x12, 0x34, 0x56), 0x00563412);
    assert_eq!(rgb(255, 255, 255), 0x00FFFFFF);
    assert_eq!(rgb(0, 0, 0), 0);
}

#[test]
fn rgb_components_come_back() {
    let c = rgb(7, 200, 99);
    assert_eq!(c & 0xff, 7);
    assert_eq!((c >> 8) & 0xff, 200);
    assert_eq!(c >> 16, 99);
}

#[test]
fn point_in_rect_includes_edges() {
    let rect = r(10, 20, 70, 60);
    assert!(point_in_rect(10, 20, &rect));
    assert!(point_in_rect(70, 60, &rect));
    assert!(point_in_rect(40, 40, &rect));
    assert!(!point_in_rect(9, 40, &rect));
    assert!(!point_in_rect(71, 40, &rect));
    assert!(!point_in_rect(40, 19, &rect));
    assert!(!point_in_rect(40, 61, &rect));
}

#[test]
fn rects_overlap_respects_padding() {
    let a = r(0, 0, 60, 40);
    // Exactly `padding` apart still counts as overlapping.
    assert!(rects_overlap(&a, &r(70, 0, 130, 40), 10));
    // One pixel more and they are apart.
    assert!(!rects_overlap(&a, &r(71, 0, 131, 40), 10));
    assert!(!rects_overlap(&a, &r(0, 51, 60, 91), 10));
    assert!(rects_overlap(&a, &r(0, 50, 60, 90), 10));
    assert!(rects_overlap(&a, &r(30, 20, 90, 60), 0));
    assert!(!rects_overlap(&a, &r(61, 0, 121, 40), 0));
}

#[test]
fn rects_overlap_is_symmetric() {
    let a = r(0, 0, 60, 40);
    let others = [r(70, 0, 130, 40), r(71, 0, 131, 40), r(-100, -100, -50, -50), r(5, 45, 65, 85)];
    for b in others.iter() {
        for pad in [0, 10, 30] {
            assert_eq!(rects_overlap(&a, b, pad), rects_overlap(b, &a, pad));
        }
    }
}

#[test]
fn screen_pos_and_dot_agree() {
    let rect = r(100, 200, 160, 240);
    let (x, y) = screen_pos_for_rect(&rect);
    assert_eq!((x, y), (OVERLAY_X + 100 + DOT_PADDING, OVERLAY_Y + 200 + DOT_PADDING));
    assert_eq!((x, y), (105, 205));
    let dot = dot_bounds(&rect);
    assert_eq!(dot, r(105, 205, 105 + DOT_SIZE, 205 + DOT_SIZE));
    assert_eq!((OVERLAY_X + dot.left, OVERLAY_Y + dot.top), (x, y));
}

#[test]
fn xorshift_sequence_from_seed() {
    let mut rng = XorShiftRng::new();
    assert_eq!(rng.state(), RNG_SEED);
    assert_eq!(rand_xo_random(&mut rng), 18338672411873516365);
    assert_eq!(rand_xo_random(&mut rng), 929928003690994747);
    assert_eq!(rand_xo_random(&mut rng), 4746713305112613827);
    assert_eq!(rng.state(), 4746713305112613827);
}

#[test]
fn xorshift_zero_is_stuck_and_nonzero_is_not() {
    let mut zero = XorShiftRng::with_seed(0);
    assert_eq!(rand_xo_random(&mut zero), 0);
    let mut one = XorShiftRng::with_seed(1);
    for _ in 0..1000 {
        assert_ne!(rand_xo_random(&mut one), 0);
    }
}

fn assert_valid_layout(rects: &[(Rect, String)], width: i32, height: i32) {
    let span_x = if width - RECT_WIDTH > 1 { width - RECT_WIDTH } else { 1 };
    let span_y = if height - RECT_HEIGHT > 1 { height - RECT_HEIGHT } else { 1 };
    assert!(rects.len() <= RECT_COUNT);
    for (i, (a, la)) in rects.iter().enumerate() {
        assert!(0 <= a.left && a.left < span_x);
        assert!(0 <= a.top && a.top < span_y);
        assert_eq!(a.right - a.left, RECT_WIDTH);
        assert_eq!(a.bottom - a.top, RECT_HEIGHT);
        let chars: Vec<char> = la.chars().collect();
        assert_eq!(chars.len(), 2);
        assert!(chars[0].is_ascii_lowercase());
        assert!(('1'..='9').contains(&chars[1]));
        for (j, (b, lb)) in rects.iter().enumerate() {
            if i != j {
                assert!(!rects_overlap(a, b, RECT_PADDING));
                assert_ne!(la, lb);
            }
        }
    }
}

#[test]
fn generated_rects_from_seed_on_full_overlay() {
    let mut rng = XorShiftRng::new();
    let rects = generate_random_rects(&mut rng, OVERLAY_WIDTH, OVERLAY_HEIGHT);
    assert_eq!(rects.len(), 20);
    assert_eq!(rects[0], (r(1105, 907, 1165, 947), "f7".to_string()));
    assert_eq!(rects[1], (r(220, 292, 280, 332), "v8".to_string()));
    assert_eq!(rects[2], (r(331, 392, 391, 432), "e9".to_string()));
    assert_eq!(rects[19], (r(1475, 626, 1535, 666), "x3".to_string()));
    assert_eq!(rng.state(), 2306077946876611316);
    assert_valid_layout(&rects, OVERLAY_WIDTH, OVERLAY_HEIGHT);
}

#[test]
fn generated_rects_stop_early_in_small_area() {
    let mut rng = XorShiftRng::new();
    let rects = generate_random_rects(&mut rng, 100, 100);
    assert_eq!(
        rects,
        vec![(r(5, 7, 65, 47), "f7".to_string()), (r(0, 59, 60, 99), "f5".to_string())]
    );
    assert_eq!(rng.state(), 1776631676721271234);
    assert_valid_layout(&rects, 100, 100);
}

#[test]
fn generated_rects_in_empty_area_start_at_origin() {
    let mut rng = XorShiftRng::new();
    let rects = generate_random_rects(&mut rng, 0, 0);
    assert_eq!(rects, vec![(r(0, 0, 60, 40), "f7".to_string())]);
    assert_eq!(rng.state(), 14516634971426069908);
}

#[test]
fn generated_rects_are_valid_for_other_seeds() {
    for seed in [1u64, 42, 0xdead_beef, u64::MAX] {
        let mut rng = XorShiftRng::with_seed(seed);
        let rects = generate_random_rects(&mut rng, 800, 600);
        assert_valid_layout(&rects, 800, 600);
    }
}

#[test]
fn generated_rects_are_valid_at_the_widest_supported_area() {
    let widest = i32::MAX - RECT_PADDING + 1;
    let mut rng = XorShiftRng::new();
    let rects = generate_random_rects(&mut rng, widest, widest);
    assert_eq!(rects.len(), RECT_COUNT);
    assert_valid_layout(&rects, widest, widest);
    for (rect, _) in rects.iter() {
        assert!(rect.right.checked_add(RECT_PADDING).is_some());
        assert!(rect.bottom.checked_add(RECT_PADDING).is_some());
    }
}

#[test]
fn cache_generates_once() {
    let mut cache = RectCache::new();
    let mut rng = XorShiftRng::new();
    let first = get_cached_rects(&mut cache, &mut rng, OVERLAY_WIDTH, OVERLAY_HEIGHT);
    let state_after = rng.state();
    assert_eq!(first.len(), 20);
    let second = get_cached_rects(&mut cache, &mut rng, 100, 100);
    assert_eq!(first, second);
    assert_eq!(rng.state(), state_after);
}

#[test]
fn rect_at_point_finds_the_hit() {
    let mut cache = RectCache::new();
    assert_eq!(get_rect_at_point(&cache, 1110, 910), None);
    let mut rng = XorShiftRng::new();
    get_cached_rects(&mut cache, &mut rng, OVERLAY_WIDTH, OVERLAY_HEIGHT);
    assert_eq!(
        get_rect_at_point(&cache, 1110, 910),
        Some((r(1105, 907, 1165, 947), "f7".to_string()))
    );
    assert_eq!(
        get_rect_at_point(&cache, 1165, 947),
        Some((r(1105, 907, 1165, 947), "f7".to_string()))
    );
    assert_eq!(get_rect_at_point(&cache, 1166, 947), None);
    assert_eq!(get_rect_at_point(&cache, 0, 0), None);
}

#[test]
fn decode_click_point_takes_low_words() {
    assert_eq!(decode_click_point((300 << 16) | 150), (150, 300));
    assert_eq!(decode_click_point(0), (0, 0));
    assert_eq!(decode_click_point(0xFFFF_FFFF), (0xFFFF, 0xFFFF));
    assert_eq!(decode_click_point(-1), (0xFFFF, 0xFFFF));
    assert_eq!(decode_click_point((7 << 32) | (2 << 16) | 1), (1, 2));
}

#[test]
fn exit_hotkey_destroys_window() {
    let cache = RectCache::new();
    let mut state = OverlayState::new();
    let action = handle_event(&mut state, WindowEvent::Hotkey { id: HOTKEY_ID_EXIT as usize }, &cache);
    assert!(matches!(action, WindowAction::DestroyWindow));
    let action = handle_event(&mut state, WindowEvent::Hotkey { id: 7 }, &cache);
    assert!(matches!(action, WindowAction::Nothing));
    assert_eq!(state, OverlayState { visible: true, ctrl_held: false });
}

#[test]
fn ctrl_toggles_once_per_press() {
    let cache = RectCache::new();
    let mut state = OverlayState::new();
    let press = WindowEvent::KeyDown { key: VK_CONTROL };
    let release = WindowEvent::KeyUp { key: VK_CONTROL };
    assert!(matches!(handle_event(&mut state, press, &cache), WindowAction::HideWindow));
    assert_eq!(state, OverlayState { visible: false, ctrl_held: true });
    assert!(matches!(handle_event(&mut state, press, &cache), WindowAction::Nothing));
    assert_eq!(state, OverlayState { visible: false, ctrl_held: true });
    assert!(matches!(handle_event(&mut state, release, &cache), WindowAction::Nothing));
    assert_eq!(state, OverlayState { visible: false, ctrl_held: false });
    assert!(matches!(handle_event(&mut state, press, &cache), WindowAction::ShowWindow));
    assert!(matches!(handle_event(&mut state, release, &cache), WindowAction::Nothing));
    assert_eq!(state, OverlayState::new());
    let other_key = WindowEvent::KeyDown { key: 0x41 };
    assert!(matches!(handle_event(&mut state, other_key, &cache), WindowAction::Nothing));
    assert_eq!(state, OverlayState::new());
}

#[test]
fn click_on_rect_clicks_dot_and_hides() {
    let mut cache = RectCache::new();
    let mut rng = XorShiftRng::new();
    get_cached_rects(&mut cache, &mut rng, OVERLAY_WIDTH, OVERLAY_HEIGHT);
    let mut state = OverlayState::new();
    let lparam: isize = (910 << 16) | 1110;
    match handle_event(&mut state, WindowEvent::LeftButtonDown { lparam }, &cache) {
        WindowAction::ClickAndHide { label, client_x, client_y, screen_x, screen_y } => {
            assert_eq!(label, "f7");
            assert_eq!((client_x, client_y), (1110, 910));
            assert_eq!((screen_x, screen_y), (1110, 912));
        },
        _ => panic!("expected a click"),
    }
    assert!(!state.visible);
}

#[test]
fn click_beside_rects_does_nothing() {
    let mut cache = RectCache::new();
    let mut state = OverlayState::new();
    let lparam: isize = (910 << 16) | 1110;
    assert!(matches!(
        handle_event(&mut state, WindowEvent::LeftButtonDown { lparam }, &cache),
        WindowAction::Nothing
    ));
    let mut rng = XorShiftRng::new();
    get_cached_rects(&mut cache, &mut rng, OVERLAY_WIDTH, OVERLAY_HEIGHT);
    assert!(matches!(
        handle_event(&mut state, WindowEvent::LeftButtonDown { lparam: 0 }, &cache),
        WindowAction::Nothing
    ));
    assert!(state.visible);
}

#[test]
fn other_messages_map_to_their_actions() {
    let cache = RectCache::new();
    let mut state = OverlayState::new();
    assert!(matches!(handle_event(&mut state, WindowEvent::Timer, &cache), WindowAction::TakeScreenshot));
    assert!(matches!(handle_event(&mut state, WindowEvent::Paint, &cache), WindowAction::Paint));
    assert!(matches!(handle_event(&mut state, WindowEvent::Destroy, &cache), WindowAction::Shutdown));
    assert!(matches!(
        handle_event(&mut state, WindowEvent::Other, &cache),
        WindowAction::DefaultProcessing
    ));
    assert_eq!(state, OverlayState::new());
}

#[test]
fn stride_is_four_bytes_per_pixel() {
    assert_eq!(dib_stride(0), 0);
    assert_eq!(dib_stride(1), 4);
    assert_eq!(dib_stride(1920), 7680);
}

#[test]
fn bgra_becomes_rgba() {
    // Two rows of two pixels, with four padding bytes after each row.
    let pixels: Vec<u8> = vec![
        1, 2, 3, 0, 4, 5, 6, 0, 99, 99, 99, 99, //
        7, 8, 9, 0, 10, 11, 12, 0, 98, 98, 98, 98,
    ];
    let rgba = bgra_to_rgba(&pixels, 2, 2, 12);
    assert_eq!(rgba, vec![3, 2, 1, 255, 6, 5, 4, 255, 9, 8, 7, 255, 12, 11, 10, 255]);
    assert_eq!(bgra_to_rgba(&pixels, 0, 2, 12), Vec::<u8>::new());
}

#[test]
fn screenshot_image_needs_copied_lines() {
    let pixels: Vec<u8> = vec![1, 2, 3, 0, 4, 5, 6, 0];
    assert!(screenshot_image(&pixels, 2, 1, 8, 0).is_none());
    assert!(screenshot_image(&pixels, 2, 1, 8, 1).is_some());
    assert!(screenshot_image(&pixels, 0, 0, 0, 1).is_some());
}
