use recorder::convert::{
    argb_to_i420, clamp, rechannel_plan, resample_plan, RechannelPlan, ResamplePlan,
};

fn frame(width: usize, height: usize, bgra: [u8; 4]) -> Vec<u8> {
    let mut v = Vec::new();
    for _ in 0..width * height {
        v.extend_from_slice(&bgra);
    }
    v
}

#[test]
fn black_frame_converts_to_video_black() {
    let src = frame(2, 2, [0, 0, 0, 255]);
    assert_eq!(src.len(), 16);
    let mut dest = Vec::new();
    argb_to_i420(2, 2, &src, &mut dest);
    assert_eq!(dest, vec![16, 16, 16, 16, 128, 128]);
}

#[test]
fn white_frame_converts_to_video_white() {
    let src = frame(2, 2, [255, 255, 255, 255]);
    let mut dest = Vec::new();
    argb_to_i420(2, 2, &src, &mut dest);
    assert_eq!(dest, vec![235, 235, 235, 235, 128, 128]);
}

#[test]
fn red_pixel_chroma_rounds_down() {
    // u = (-38 * 255 + 128) >> 8 + 128 = -38 + 128: the shift floors negative values.
    let src = frame(2, 2, [0, 0, 255, 255]);
    let mut dest = Vec::new();
    argb_to_i420(2, 2, &src, &mut dest);
    assert_eq!(dest, vec![82, 82, 82, 82, 90, 240]);
}

#[test]
fn i420_length_for_even_dimensions() {
    for (w, h) in [(2usize, 2usize), (4, 2), (6, 4), (640, 480)] {
        let src = frame(w, h, [10, 20, 30, 255]);
        let mut dest = Vec::new();
        argb_to_i420(w, h, &src, &mut dest);
        assert_eq!(dest.len(), w * h + 2 * (w / 2) * (h / 2));
    }
}

#[test]
fn i420_is_deterministic_and_clears_dest() {
    let mut src = Vec::new();
    for i in 0..(4 * 4 * 4) {
        src.push((i * 37 % 256) as u8);
    }
    let mut a = vec![1, 2, 3];
    let mut b = Vec::new();
    argb_to_i420(4, 4, &src, &mut a);
    argb_to_i420(4, 4, &src, &mut b);
    assert_eq!(a, b);
    assert_eq!(a.len(), 16 + 4 + 4);
}

#[test]
fn i420_samples_top_left_of_each_block() {
    // 2x2 frame: only the top-left pixel (white) reaches the chroma planes.
    let mut src = frame(2, 2, [0, 0, 0, 255]);
    src[0] = 255;
    src[1] = 0;
    src[2] = 0;
    let mut dest = Vec::new();
    argb_to_i420(2, 2, &src, &mut dest);
    // Blue: y = (25 * 255 + 128) >> 8 + 16 = 41, u = (112 * 255 + 128) >> 8 + 128 = 240,
    // v = (-18 * 255 + 128) >> 8 + 128 = 110.
    assert_eq!(dest, vec![41, 16, 16, 16, 240, 110]);
}

#[test]
fn i420_follows_row_stride() {
    // Rows padded to 12 bytes for a frame 2 pixels wide.
    let mut src = vec![0u8; 24];
    for b in &mut src[12..20] {
        *b = 255;
    }
    let mut dest = Vec::new();
    argb_to_i420(2, 2, &src, &mut dest);
    assert_eq!(dest, vec![16, 16, 235, 235, 128, 128]);
}

#[test]
fn clamp_limits_to_a_byte() {
    assert_eq!(clamp(-5), 0);
    assert_eq!(clamp(0), 0);
    assert_eq!(clamp(200), 200);
    assert_eq!(clamp(255), 255);
    assert_eq!(clamp(300), 255);
}

#[test]
fn resample_halves_stereo_block() {
    assert_eq!(
        resample_plan(960, 2, 48000, 24000),
        ResamplePlan::Interpolate { frames: 240 }
    );
    assert_eq!(
        resample_plan(441, 1, 44100, 48000),
        ResamplePlan::Interpolate { frames: 480 }
    );
}

#[test]
fn resample_keeps_block_when_rates_match() {
    assert_eq!(resample_plan(960, 2, 48000, 48000), ResamplePlan::Keep);
    assert_eq!(resample_plan(7, 3, 16000, 16000), ResamplePlan::Keep);
}

#[test]
fn rechannel_keeps_block_when_counts_match() {
    assert_eq!(rechannel_plan(7, 2, 2), RechannelPlan::Keep);
    assert_eq!(rechannel_plan(0, 1, 1), RechannelPlan::Keep);
}

#[test]
fn rechannel_mixes_whole_frames() {
    assert_eq!(rechannel_plan(5, 2, 1), RechannelPlan::Mix { frames: 2 });
    assert_eq!(rechannel_plan(4, 1, 2), RechannelPlan::Mix { frames: 4 });
    assert_eq!(rechannel_plan(48, 6, 2), RechannelPlan::Mix { frames: 8 });
    for c1 in 1u16..=8 {
        for c2 in 1u16..=8 {
            if c1 != c2 {
                match rechannel_plan(101, c1, c2) {
                    RechannelPlan::Mix { frames } => assert_eq!((frames * c2 as usize) % c2 as usize, 0),
                    other => panic!("unexpected plan {:?}", other),
                }
            }
        }
    }
}

#[test]
fn rechannel_truncates_uncovered_pairs() {
    assert_eq!(rechannel_plan(20, 9, 2), RechannelPlan::Truncate { len: 18 });
    assert_eq!(rechannel_plan(20, 3, 10), RechannelPlan::Truncate { len: 18 });
}
