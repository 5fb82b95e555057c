use scrap_wayland::capturable::{PipeWireCapturable, PwStreamInfo};
use scrap_wayland::errors::GStreamerError;
use scrap_wayland::recorder::{
    get_res, would_block_if_equal, Crop, PipeWireRecorder, PixelProvider, Pulled, PulledSize,
    Sample, SampleData,
};

fn recorder() -> PipeWireRecorder {
    let stream = PwStreamInfo {
        path: 1,
        source_type: 1,
        position: (0, 0),
        size: (0, 0),
    };
    let c = PipeWireCapturable::for_size_probe(String::new(), None, &stream);
    PipeWireRecorder::new(&c, None, true).0
}

fn pixels(w: usize, h: usize, from: u8) -> Vec<u8> {
    (0..w * h * 4).map(|i| from.wrapping_add(i as u8)).collect()
}

fn sample(w: i32, h: i32, format: &str, crop: Option<Crop>, data: SampleData) -> Pulled {
    Pulled::Complete(Sample {
        width: w,
        height: h,
        format: format.to_owned(),
        crop,
        data,
    })
}

fn mapped(w: i32, h: i32, bytes: Vec<u8>) -> Pulled {
    sample(w, h, "BGRx", None, SampleData::Mapped(bytes))
}

fn shown(r: Result<PixelProvider<'_>, GStreamerError>) -> Result<Option<(bool, usize, usize, Vec<u8>)>, String> {
    match r {
        Ok(PixelProvider::BGR0(w, h, b)) => Ok(Some((true, w, h, b.to_vec()))),
        Ok(PixelProvider::RGB0(w, h, b)) => Ok(Some((false, w, h, b.to_vec()))),
        Ok(PixelProvider::NONE) => Ok(None),
        Err(e) => Err(e.to_text()),
    }
}

#[test]
fn frames_are_shown_in_their_format() {
    let mut rec = recorder();
    let b = pixels(2, 2, 0);
    assert_eq!(
        shown(rec.capture(mapped(2, 2, b.clone()))),
        Ok(Some((true, 2, 2, b.clone())))
    );
    let b2 = pixels(1, 3, 9);
    let rgb = sample(1, 3, "RGBx", None, SampleData::Dma(b2.clone()));
    assert_eq!(shown(rec.capture(rgb)), Ok(Some((false, 1, 3, b2))));
}

#[test]
fn unknown_formats_are_refused() {
    let mut rec = recorder();
    let odd = sample(1, 1, "YUY2", None, SampleData::Mapped(pixels(1, 1, 0)));
    assert_eq!(
        shown(rec.capture(odd)),
        Err("Unreachable! Unknown pix_fmt, YUY2".to_owned())
    );
}

#[test]
fn failed_pulls_are_reported() {
    let mut rec = recorder();
    assert_eq!(shown(rec.capture(Pulled::Timeout)), Ok(None));
    for (pulled, text) in [
        (Pulled::MissingCaps, "Failed get caps"),
        (Pulled::MissingStructure, "Failed to get structure"),
        (Pulled::BadField("no width".to_owned()), "no width"),
        (Pulled::MissingFormat, "Failed to get pixel format"),
    ] {
        assert_eq!(shown(rec.capture(pulled)), Err(text.to_owned()));
        assert_eq!(rec.pix_fmt, "");
    }
    let format = "RGBx".to_owned();
    assert_eq!(
        shown(rec.capture(Pulled::MissingBuffer { format })),
        Err("Failed to get owned buffer.".to_owned())
    );
    assert_eq!(rec.pix_fmt, "RGBx");
    let format = "BGRx".to_owned();
    assert_eq!(
        shown(rec.capture(Pulled::Unmappable { format })),
        Err("Failed to map buffer.".to_owned())
    );
    assert_eq!(rec.pix_fmt, "BGRx");
}

#[test]
fn repeated_frames_show_nothing() {
    let mut rec = recorder();
    let b = pixels(2, 1, 3);
    assert!(shown(rec.capture(mapped(2, 1, b.clone()))).unwrap().is_some());
    assert_eq!(shown(rec.capture(mapped(2, 1, b.clone()))), Ok(None));
    let dma = sample(2, 1, "BGRx", None, SampleData::Dma(b.clone()));
    assert_eq!(shown(rec.capture(dma)), Ok(None));
    assert!(rec.buffer.is_none());
    assert_eq!(rec.dma_buffer, b);
    rec.forget_last();
    assert_eq!(
        shown(rec.capture(mapped(2, 1, b.clone()))),
        Ok(Some((true, 2, 1, b)))
    );
}

#[test]
fn frames_of_the_wrong_size_are_dropped() {
    let mut rec = recorder();
    assert_eq!(
        shown(rec.capture(mapped(2, 2, pixels(2, 1, 1)))),
        Err("No buffer available!".to_owned())
    );
    let b = pixels(2, 2, 0);
    assert!(shown(rec.capture(mapped(2, 2, b.clone()))).unwrap().is_some());
    // The frame before is shown again, in the format of the dropped one.
    let short = sample(7, 7, "RGBx", None, SampleData::Mapped(pixels(1, 1, 5)));
    assert_eq!(shown(rec.capture(short)), Ok(Some((false, 2, 2, b))));
}

#[test]
fn crops_move_pixels() {
    let b = pixels(4, 3, 0);
    let pixel = |x: usize, y: usize| b[(y * 4 + x) * 4..][..4].to_vec();
    let expected: Vec<u8> = [pixel(1, 1), pixel(2, 1), pixel(1, 2), pixel(2, 2)].concat();
    for data in [SampleData::Dma(b.clone()), SampleData::Mapped(b.clone())] {
        let mut rec = recorder();
        let cut = sample(4, 3, "BGRx", Some((1, 1, 2, 2)), data);
        assert_eq!(shown(rec.capture(cut)), Ok(Some((true, 2, 2, expected.clone()))));
        assert!(rec.is_cropped);
        // A whole frame is shown as it is again.
        let whole = pixels(4, 3, 1);
        assert_eq!(
            shown(rec.capture(mapped(4, 3, whole.clone()))),
            Ok(Some((true, 4, 3, whole)))
        );
        assert!(!rec.is_cropped);
    }
}

#[test]
fn crops_of_everything_or_nothing() {
    let mut rec = recorder();
    let b = pixels(4, 3, 0);
    let all = sample(4, 3, "BGRx", Some((0, 0, 4, 3)), SampleData::Mapped(b.clone()));
    assert_eq!(shown(rec.capture(all)), Ok(Some((true, 4, 3, b))));
    assert!(!rec.is_cropped);
    let none = sample(4, 3, "BGRx", Some((9, 9, 2, 0)), SampleData::Mapped(pixels(4, 3, 8)));
    assert_eq!(shown(rec.capture(none)), Ok(Some((true, 2, 0, vec![]))));
}

#[test]
fn samples_are_taken_and_shown_apart() {
    let mut rec = recorder();
    assert_eq!(shown(rec.frame()), Err("No buffer available!".to_owned()));
    let s = Sample {
        width: 1,
        height: 1,
        format: "BGRx".to_owned(),
        crop: None,
        data: SampleData::Mapped(vec![1, 2, 3, 4]),
    };
    assert!(rec.take_sample(s));
    assert_eq!(shown(rec.frame()), Ok(Some((true, 1, 1, vec![1, 2, 3, 4]))));
    assert_eq!(shown(rec.frame()), Ok(Some((true, 1, 1, vec![1, 2, 3, 4]))));
}

#[test]
fn bytes_are_kept_for_comparison() {
    let mut last = vec![];
    assert!(would_block_if_equal(&mut last, &[]));
    assert!(!would_block_if_equal(&mut last, &[1, 2]));
    assert_eq!(last, vec![1, 2]);
    assert!(would_block_if_equal(&mut last, &[1, 2]));
    assert!(!would_block_if_equal(&mut last, &[1, 3]));
    assert!(!would_block_if_equal(&mut last, &[1]));
    assert_eq!(last, vec![1]);
}

#[test]
fn resolution_is_that_of_a_frame() {
    let known = PulledSize::Known {
        width: 640,
        height: -1,
    };
    assert_eq!(get_res(known).unwrap(), (640, usize::MAX));
    for (pulled, text) in [
        (PulledSize::Timeout, "Error getting screen resolution"),
        (PulledSize::MissingCaps, "Failed get caps"),
        (PulledSize::MissingStructure, "Failed to get structure"),
        (PulledSize::BadField("odd".to_owned()), "odd"),
    ] {
        assert_eq!(get_res(pulled).unwrap_err().to_text(), text);
    }
}

#[test]
fn frames_that_do_not_fit_are_noticed() {
    let mut rec = recorder();
    let dma = |w, h, crop, n| sample(w, h, "BGRx", crop, SampleData::Dma(vec![1; n]));
    let map = |w, h, crop, n| sample(w, h, "BGRx", crop, SampleData::Mapped(vec![1; n]));
    for (pulled, fits) in [
        (Pulled::Timeout, true),
        (dma(2, 2, None, 16), true),
        (dma(2, 2, None, 15), false),
        (dma(2, 2, Some((1, 1, 1, 1)), 16), true),
        (dma(2, 2, Some((1, 1, 2, 1)), 16), false),
        (dma(2, 2, Some((0, 2, 1, 1)), 16), false),
        (dma(2, 2, Some((0, 9, 1, 0)), 16), true),
        (map(2, 2, None, 15), true),
        (map(2, 2, Some((5, 5, 5, 5)), 15), true),
        (map(2, 2, Some((0, 1, 2, 2)), 16), false),
        (map(-1, -1, None, 16), false),
        (dma(-1, -1, None, 16), false),
        (map(2, 2, Some((u32::MAX, u32::MAX, u32::MAX, u32::MAX)), 16), false),
    ] {
        assert_eq!(rec.can_capture(&pulled), fits, "{pulled:?}");
    }
    // What repeats the last bytes is not looked at.
    assert!(rec.take_sample(Sample {
        width: 2,
        height: 2,
        format: "BGRx".to_owned(),
        crop: None,
        data: SampleData::Mapped(vec![1; 16]),
    }));
    assert!(rec.can_capture(&map(-1, -1, Some((9, 9, 9, 9)), 16)));
}
