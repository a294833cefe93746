use noma::hud::{
    frame_from_bytes, pick_pixels, press_action, punch_green, scale_premultiply, silence_phase,
    Clip, Mascot, Phase, PressAction, FRAME,
};
use noma::hud::{
    hud_accent, hud_subtitle, hud_title, hud_visible, HudTimers, MascotDrag, ERROR_MS, PREVIEW_MS,
};

#[test]
fn a_busy_session_ignores_the_key() {
    assert_eq!(press_action(true, false, "loading"), PressAction::Ignore);
    assert_eq!(
        press_action(false, false, "Downloading model 12%"),
        PressAction::Refuse(Phase::Error("Downloading model 12%".into()))
    );
    assert_eq!(press_action(false, true, "ready"), PressAction::Record);
}

#[test]
fn silence_names_the_device() {
    assert_eq!(silence_phase(true, "Yeti"), Phase::Idle);
    assert_eq!(
        silence_phase(false, ""),
        Phase::Error("No sound from the microphone".into())
    );
    assert_eq!(
        silence_phase(false, "Microphone (Yeti Classic)"),
        Phase::Error("No sound from Microphone (Yeti Classic)".into())
    );
}

#[test]
fn chroma_green_becomes_transparent() {
    let mut bytes = vec![
        10, 200, 10, 255, // green: punched
        200, 200, 200, 255, // grey: kept
        100, 150, 20, 255, // too dark to be chroma: kept
        200, 239, 10, 255, // not clear of red: kept
        200, 241, 10, 255, // clear of red: punched
        1, 2, 3, // a partial pixel is left alone
    ];
    punch_green(&mut bytes);
    assert_eq!(
        bytes,
        vec![
            10, 200, 10, 0, 200, 200, 200, 255, 100, 150, 20, 255, 200, 239, 10, 255, 200, 241,
            10, 0, 1, 2, 3,
        ]
    );
}

#[test]
fn green_near_white_is_kept() {
    let mut bytes = vec![250, 255, 250, 255];
    punch_green(&mut bytes);
    assert_eq!(bytes, vec![250, 255, 250, 255]);
}

fn solid(r: u8, g: u8, b: u8, a: u8) -> Vec<u8> {
    let mut frame = Vec::with_capacity(FRAME);
    for _ in 0..FRAME / 4 {
        frame.extend_from_slice(&[r, g, b, a]);
    }
    frame
}

#[test]
fn scaling_premultiplies_into_bgra() {
    let src = solid(200, 100, 50, 128);
    let mut dst = vec![7u8; 3 * 2 * 4 + 2];
    scale_premultiply(&src, &mut dst, 3, 2);
    for pixel in dst[..24].chunks(4) {
        assert_eq!(pixel, &[25, 50, 100, 128]);
    }
    assert_eq!(&dst[24..], &[7, 7]);
}

#[test]
fn scaling_samples_the_nearest_source_pixel() {
    let mut src = solid(0, 0, 0, 255);
    // The source pixel at (128, 0) is the one the second of two columns reads.
    src[128 * 4] = 255;
    let mut dst = vec![0u8; 2 * 4];
    scale_premultiply(&src, &mut dst, 2, 1);
    assert_eq!(dst, vec![0, 0, 0, 255, 0, 0, 255, 255]);
}

#[test]
fn frames_are_cut_and_punched() {
    assert!(frame_from_bytes(vec![0; FRAME - 1]).is_none());
    let mut bytes = solid(0, 255, 0, 255);
    bytes.extend_from_slice(&[9, 9, 9]);
    let frame = frame_from_bytes(bytes).expect("frame");
    assert_eq!(frame.len(), FRAME);
    assert!(frame.chunks(4).all(|px| px == [0, 255, 0, 0]));
}

#[test]
fn clips_pick_frames_by_phase_and_tick() {
    assert!(Clip::from_bytes(vec![0; FRAME - 1]).is_none());
    let mut two = solid(1, 1, 1, 255);
    two.extend(solid(2, 2, 2, 255));
    two.extend_from_slice(&[5; 10]);
    let listen = Clip::from_bytes(two).expect("clip");
    let still = solid(9, 9, 9, 255);
    let listening = Phase::Listening;

    let at = |tick| pick_pixels(&listening, None, tick, &still, None, Some(&listen), None, None)[0];
    assert_eq!(at(0), 1);
    assert_eq!(at(1), 2);
    assert_eq!(at(2), 1);

    // No clip for the phase shows the still picture.
    let idle = pick_pixels(&Phase::Idle, None, 3, &still, None, Some(&listen), None, None);
    assert_eq!(idle[0], 9);

    // A running poke wins, and stops on its last frame.
    let mut poke_bytes = solid(3, 3, 3, 255);
    poke_bytes.extend(solid(4, 4, 4, 255));
    let poke = Clip::from_bytes(poke_bytes).expect("poke");
    let poked = |tick| {
        pick_pixels(&listening, Some(tick), 0, &still, None, Some(&listen), None, Some(&poke))[0]
    };
    assert_eq!(poked(0), 3);
    assert_eq!(poked(1), 4);
    assert_eq!(poked(50), 4);
}

#[test]
fn a_mascot_without_assets_shows_a_blank_still() {
    let mascot = Mascot::new(None, None, None, None, None);
    let shown = mascot.pixels(&Phase::Listening, Some(3), 7);
    assert_eq!(shown.len(), FRAME);
    assert!(shown.iter().all(|&b| b == 0));
    // Without a poke animation a poke lasts a fixed time.
    assert!(!mascot.poke_finished(100, 700));
    assert!(mascot.poke_finished(0, 701));
}

#[test]
fn a_short_still_file_is_replaced_by_a_blank_frame() {
    let mascot = Mascot::new(Some(vec![9; FRAME - 1]), None, None, None, None);
    assert!(mascot.pixels(&Phase::Idle, None, 0).iter().all(|&b| b == 0));
}

#[test]
fn the_mascot_plays_the_clip_for_its_phase() {
    let mut listen = solid(1, 1, 1, 255);
    listen.extend(solid(2, 2, 2, 255));
    let mut poke = solid(3, 3, 3, 255);
    poke.extend(solid(4, 4, 4, 255));
    let mascot = Mascot::new(
        Some(solid(9, 9, 9, 255)),
        None,
        Some(listen),
        Some(vec![0; 10]),
        Some(poke),
    );
    assert_eq!(mascot.pixels(&Phase::Idle, None, 5)[0], 9);
    assert_eq!(mascot.pixels(&Phase::Transcribing, None, 5)[0], 9);
    assert_eq!(mascot.pixels(&Phase::Listening, None, 5)[0], 2);
    assert_eq!(mascot.pixels(&Phase::Listening, Some(0), 5)[0], 3);
    assert_eq!(mascot.pixels(&Phase::Error("x".into()), Some(9), 5)[0], 4);
    // With a poke animation, the poke lasts until it has played out.
    assert!(!mascot.poke_finished(1, 5000));
    assert!(mascot.poke_finished(2, 0));
}

#[test]
fn the_pill_reads_by_phase() {
    assert!(!hud_visible(&Phase::Idle));
    assert!(hud_visible(&Phase::Listening));
    assert_eq!(hud_title(&Phase::Listening), "Listening");
    assert_eq!(hud_title(&Phase::Transcribing), "Transcribing");
    assert_eq!(hud_title(&Phase::Error("x".into())), "Error");
    assert_eq!(hud_title(&Phase::Idle), "Noma");
    assert_eq!(hud_subtitle(&Phase::Error("mic: gone".into())), "mic: gone");
    assert_eq!(hud_subtitle(&Phase::Listening), "Right Ctrl");
    assert_eq!(hud_subtitle(&Phase::Transcribing), "local engine");
    assert_eq!(hud_subtitle(&Phase::Idle), "hold Right Ctrl");
    assert_eq!(hud_accent(&Phase::Listening), (46, 196, 184));
    assert_eq!(hud_accent(&Phase::Error("x".into())), (248, 113, 113));
}

#[test]
fn a_preview_holds_the_pill_for_three_seconds() {
    let mut timers = HudTimers::new();
    let mut phase = Phase::Idle;
    timers.preview(1000, &mut phase);
    assert_eq!(phase, Phase::Listening);
    timers.tick(1000 + PREVIEW_MS - 1, &mut phase);
    assert_eq!(phase, Phase::Listening);
    timers.tick(1000 + PREVIEW_MS, &mut phase);
    assert_eq!(phase, Phase::Idle);
    assert_eq!(timers.preview_until, None);

    // A preview does not interrupt a decode.
    let mut busy = Phase::Transcribing;
    timers.preview(0, &mut busy);
    assert_eq!(busy, Phase::Transcribing);
}

#[test]
fn an_error_stays_up_for_a_while() {
    let mut timers = HudTimers::new();
    let mut phase = Phase::Error("mic: gone".into());
    timers.tick(500, &mut phase);
    assert_eq!(timers.error_until, Some(500 + ERROR_MS));
    timers.tick(500 + ERROR_MS - 1, &mut phase);
    assert_eq!(phase, Phase::Error("mic: gone".into()));
    timers.tick(500 + ERROR_MS, &mut phase);
    assert_eq!(phase, Phase::Idle);
    assert_eq!(timers.error_until, None);
}

#[test]
fn a_click_pokes_the_mascot_and_a_drag_moves_it() {
    let mut drag = MascotDrag::new();
    drag.grab((110, 220), (100, 200));
    drag.release();
    assert!(drag.take_poke());
    assert!(!drag.take_poke());

    drag.grab((110, 220), (100, 200));
    assert_eq!(drag.follow((150, 260)), Some((140, 240)));
    drag.release();
    assert!(!drag.take_poke());
    // Not dragging: the mouse moving over the mascot moves nothing.
    assert_eq!(drag.follow((0, 0)), None);
}

#[test]
fn the_tray_icon_is_a_teal_disc() {
    let rgba = noma::hud::tray_icon_rgba();
    assert_eq!(rgba.len(), 32 * 32 * 4);
    let size = 32u32;
    for y in 0..size {
        for x in 0..size {
            let dx = x as f32 - 15.5;
            let dy = y as f32 - 15.5;
            let inside = (dx * dx + dy * dy).sqrt() < 13.0;
            let i = ((y * size + x) * 4) as usize;
            let want: [u8; 4] = if inside { [0x2E, 0xC4, 0xB8, 255] } else { [0, 0, 0, 0] };
            assert_eq!(&rgba[i..i + 4], &want, "pixel ({x}, {y})");
        }
    }
    // The centre is painted, the corners are not.
    assert_eq!(rgba[(16 * 32 + 16) * 4 + 3], 255);
    assert_eq!(rgba[3], 0);
}

#[test]
fn scaling_to_nothing_writes_nothing() {
    let src = solid(1, 2, 3, 4);
    let mut dst = vec![7u8; 8];
    scale_premultiply(&src, &mut dst, 0, 5);
    scale_premultiply(&src, &mut dst, 5, 0);
    assert_eq!(dst, vec![7u8; 8]);
}
