use thumbor::cache::{RetrievalCache, SourceFetchError};
use thumbor::engine::{EncodeError, OperationFault, OutputFormat, Photon, Progress, SourceDecodeError};
use thumbor::pb::filter::Filter;
use thumbor::pb::resize::SampleFilter;
use thumbor::pb::{ImageSpec, Spec, TokenDecodeError};
use thumbor::request::{
    advance, fetched, finish, generate, image_path, open, percent_decode, percent_encode, receive,
    resume, Blame, Failure, Plan, Rendering, STATUS_BAD_REQUEST, STATUS_SERVER_ERROR,
};

const LOCATOR: &str = "https://img.xjh.me/random_img.php?return=302&time=13145";

fn picture(width: u32, height: u32) -> Vec<u8> {
    let shade = |x: u32, y: u32| image::Rgba([(x * 9) as u8, (y * 7) as u8, 200, 255]);
    let mut out = std::io::Cursor::new(Vec::new());
    image::DynamicImage::ImageRgba8(image::RgbaImage::from_fn(width, height, shade))
        .write_to(&mut out, image::ImageOutputFormat::Png)
        .unwrap();
    out.into_inner()
}

#[test]
fn failures_are_told_apart() {
    let client = [
        Failure::Token(TokenDecodeError::Text),
        Failure::Token(TokenDecodeError::Pipeline),
        Failure::Fetch(SourceFetchError),
    ];
    for failure in client {
        assert_eq!(failure.blame(), Blame::Client);
        assert_eq!(failure.status(), 400);
    }
    let server = [
        Failure::Source(SourceDecodeError::Unreadable),
        Failure::Source(SourceDecodeError::Size),
        Failure::Operation(OperationFault { index: 0 }),
        Failure::Encode(EncodeError),
    ];
    for failure in server {
        assert_eq!(failure.blame(), Blame::Server);
        assert_eq!(failure.status(), 500);
    }
    assert_eq!((STATUS_BAD_REQUEST, STATUS_SERVER_ERROR), (400, 500));
}

#[test]
fn path_holds_the_token_and_the_escaped_locator() {
    let pipeline = ImageSpec::new(vec![
        Spec::new_resize(500, 800, SampleFilter::CatmullRom),
        Spec::new_watermark(20, 20, 1),
        Spec::new_filter(Filter::Marine),
    ]);
    assert_eq!(
        image_path(&pipeline, LOCATOR).unwrap(),
        "/image/CgoKCAj0AxCgBiADCgg6BggUEBQYAQoEMgIIAw/\
         https%3A%2F%2Fimg%2Exjh%2Eme%2Frandom%5Fimg%2Ephp%3Freturn%3D302%26time%3D13145"
    );
    let other = ImageSpec::new(vec![
        Spec::new_oil(),
        Spec::new_watermark(20, 20, 1),
        Spec::new_filter(Filter::Marine),
        Spec::new_draw_text("Hello World".to_string(), 40, 40),
    ]);
    assert_eq!(
        image_path(&other, "a-b_c.d~e/\u{e9} Z09").unwrap(),
        "/image/CglKBwgCFQAASEIKCDoGCBQQFBgBCgQyAggDChNCEQoLSGVsbG8gV29ybGQQKBgo/\
         a%2Db%5Fc%2Ed%7Ee%2F%C3%A9%20Z09"
    );
    assert_eq!(image_path(&ImageSpec::new(vec![]), ""), Some("/image//".to_string()));
}

#[test]
fn bad_token_ends_the_request_and_touches_nothing() {
    let mut cache = RetrievalCache::new(2).unwrap();
    cache.put(RetrievalCache::key_for("a"), vec![1]);
    cache.put(RetrievalCache::key_for("b"), vec![2]);
    assert_eq!(
        receive("no token!", "a", &mut cache),
        Err(Failure::Token(TokenDecodeError::Text))
    );
    assert_eq!(
        receive("CgJSAA", "a", &mut cache),
        Err(Failure::Token(TokenDecodeError::Pipeline))
    );
    // "a" is still the least recently used entry: it is the one that leaves
    cache.put(RetrievalCache::key_for("c"), vec![3]);
    assert_eq!(cache.get(RetrievalCache::key_for("a")), None);
    assert_eq!(cache.get(RetrievalCache::key_for("b")), Some(vec![2]));
}

#[test]
fn miss_asks_for_a_fetch_and_hit_does_not() {
    let mut cache = RetrievalCache::new(2).unwrap();
    let token = "CgIaAAoCIgA";
    let escaped = "https%3A%2F%2Fexample%2Ecom%2Fa%20b%2epng";
    let plain = "https://example.com/a b.png";
    let key = RetrievalCache::key_for(plain);
    let pipeline = ImageSpec::new(vec![Spec::Flipv, Spec::Fliph]);
    assert_eq!(
        receive(token, escaped, &mut cache),
        Ok(Plan::Fetch { pipeline: pipeline.clone(), locator: plain.to_string(), key })
    );
    assert_eq!(fetched(&mut cache, key, Some(vec![7, 8])), Ok(vec![7, 8]));
    assert_eq!(
        receive(token, escaped, &mut cache),
        Ok(Plan::Render { pipeline: pipeline.clone(), source: vec![7, 8] })
    );
    assert_eq!(
        receive(token, plain, &mut cache),
        Ok(Plan::Render { pipeline, source: vec![7, 8] })
    );
}

#[test]
fn locator_is_percent_decoded_with_replacement() {
    let mut cache = RetrievalCache::new(2).unwrap();
    match receive("", "%41%zz%FF%e4%b8%96", &mut cache) {
        Ok(Plan::Fetch { locator, key, .. }) => {
            assert_eq!(locator, "A%zz\u{fffd}\u{4e16}");
            assert_eq!(key, RetrievalCache::key_for("A%zz\u{fffd}\u{4e16}"));
        }
        other => panic!("unexpected plan {:?}", other),
    }
}

#[test]
fn failed_fetch_is_the_clients_and_is_not_cached() {
    let mut cache = RetrievalCache::new(2).unwrap();
    let key = RetrievalCache::key_for("gone");
    assert_eq!(fetched(&mut cache, key, None), Err(Failure::Fetch(SourceFetchError)));
    assert!(matches!(receive("", "gone", &mut cache), Ok(Plan::Fetch { .. })));
}

#[test]
fn unreadable_source_is_the_servers_and_stays_cached() {
    let mut cache = RetrievalCache::new(2).unwrap();
    let key = RetrievalCache::key_for("text");
    let source = fetched(&mut cache, key, Some(b"plain text".to_vec())).unwrap();
    match open(&source) {
        Err(failure) => {
            assert_eq!(failure, Failure::Source(SourceDecodeError::Unreadable));
            assert_eq!(failure.status(), 500);
        }
        Ok(_) => panic!("text is no picture"),
    }
    assert!(matches!(receive("", "text", &mut cache), Ok(Plan::Render { .. })));
}

#[test]
fn fault_names_the_operation() {
    let mut engine = open(&picture(6, 5)).unwrap();
    let mark = Photon::watermark(&picture(4, 4)).unwrap();
    let pipeline = ImageSpec::new(vec![
        Spec::Fliph,
        Spec::Flipv,
        Spec::Crop { x1: 5, y1: 0, x2: 2, y2: 2 },
    ]);
    assert_eq!(
        advance(&mut engine, &pipeline, 0, &mark),
        Err(Failure::Operation(OperationFault { index: 2 }))
    );
}

#[test]
fn request_runs_from_token_to_output() {
    let mut cache = RetrievalCache::new(16).unwrap();
    let mark = Photon::watermark(&picture(4, 4)).unwrap();
    let pipeline = ImageSpec::new(vec![
        Spec::new_resize(50, 80, SampleFilter::CatmullRom),
        Spec::new_watermark(20, 20, 1),
        Spec::new_filter(Filter::Marine),
    ]);
    let path = image_path(&pipeline, LOCATOR).unwrap();
    let segments: Vec<&str> = path.split('/').collect();
    assert_eq!(segments.len(), 4);
    let source = match receive(segments[2], segments[3], &mut cache).unwrap() {
        Plan::Fetch { locator, key, .. } => {
            assert_eq!(locator, LOCATOR);
            fetched(&mut cache, key, Some(picture(30, 20))).unwrap()
        }
        Plan::Render { .. } => panic!("nothing was cached yet"),
    };
    let mut engine = open(&source).unwrap();
    assert_eq!(advance(&mut engine, &pipeline, 0, &mark), Ok(Progress::Finished));
    let (data, content_type) = finish(engine, OutputFormat::Png).unwrap();
    assert_eq!(content_type, "image/png");
    let back = image::load_from_memory_with_format(&data, image::ImageFormat::Png).unwrap();
    assert_eq!((back.width(), back.height()), (50, 80));
}

#[test]
fn output_that_cannot_be_encoded_is_the_servers() {
    let engine = open(&picture(300, 2)).unwrap();
    match finish(engine, OutputFormat::Ico) {
        Err(failure) => {
            assert_eq!(failure, Failure::Encode(EncodeError));
            assert_eq!(failure.status(), 500);
        }
        Ok(_) => panic!("an icon cannot be 300 pixels wide"),
    }
}

#[test]
fn escaped_locator_is_received_as_it_was() {
    let pipeline = ImageSpec::new(vec![]);
    for locator in ["", "plain", "%", "%41", "100%25 \u{e9}\u{4e16}\u{1f600}/?#&=+", "a%zzb%F"] {
        let path = image_path(&pipeline, locator).unwrap();
        let escaped = path.strip_prefix("/image//").unwrap();
        assert!(escaped.chars().all(|c| c.is_ascii_alphanumeric() || c == '%'));
        let mut cache = RetrievalCache::new(1).unwrap();
        match receive("", escaped, &mut cache) {
            Ok(Plan::Fetch { locator: back, .. }) => assert_eq!(back, locator),
            other => panic!("unexpected plan {:?}", other),
        }
    }
}

#[test]
fn percent_signs_without_two_digits_stay() {
    let mut cache = RetrievalCache::new(1).unwrap();
    for (escaped, plain) in [
        ("%", "%"),
        ("%4", "%4"),
        ("%%41", "%A"),
        ("%4g%2f%2F", "%4g//"),
        ("a%00b", "a\0b"),
        ("%c3", "\u{fffd}"),
        ("%C3%A9", "\u{e9}"),
    ] {
        match receive("", escaped, &mut cache) {
            Ok(Plan::Fetch { locator, .. }) => assert_eq!(locator, plain),
            other => panic!("unexpected plan {:?}", other),
        }
    }
}

fn failure_of(rendering: Result<Rendering, Failure>) -> Failure {
    match rendering {
        Err(failure) => failure,
        Ok(_) => panic!("the request did not fail"),
    }
}

#[test]
fn pipeline_that_cannot_be_honoured_is_a_server_error() {
    let mark = Photon::watermark(&picture(4, 4)).unwrap();
    let faults = [
        (vec![Spec::Resize { width: 3, height: 3, rtype: 2, filter: 1 }], 0),
        (vec![Spec::Fliph, Spec::Resize { width: 3, height: 3, rtype: 0, filter: 9 }], 1),
        (vec![Spec::Fliph, Spec::Flipv, Spec::Crop { x1: 3, y1: 0, x2: 3, y2: 2 }], 2),
        (vec![Spec::Crop { x1: 0, y1: 4, x2: 3, y2: 2 }, Spec::Fliph], 0),
    ];
    for (specs, index) in faults {
        let failure =
            failure_of(generate(&ImageSpec::new(specs), &picture(6, 5), &mark, OutputFormat::Png));
        assert_eq!(failure, Failure::Operation(OperationFault { index }));
        assert_eq!(failure.status(), 500);
    }
    let unreadable =
        failure_of(generate(&ImageSpec::new(vec![]), b"no picture", &mark, OutputFormat::Png));
    assert_eq!(unreadable, Failure::Source(SourceDecodeError::Unreadable));
    assert_eq!(unreadable.status(), 500);
    let unfit =
        failure_of(generate(&ImageSpec::new(vec![]), &picture(300, 2), &mark, OutputFormat::Ico));
    assert_eq!(unfit, Failure::Encode(EncodeError));
}

#[test]
fn generate_gives_the_output_or_pauses_at_the_callers_operation() {
    let mark = Photon::watermark(&picture(4, 4)).unwrap();
    let through = ImageSpec::new(vec![Spec::Fliph, Spec::new_resize(9, 3, SampleFilter::Nearest)]);
    match generate(&through, &picture(6, 5), &mark, OutputFormat::Png) {
        Ok(Rendering::Output { data, content_type }) => {
            assert_eq!(content_type, "image/png");
            let back = image::load_from_memory(&data).unwrap();
            assert_eq!((back.width(), back.height()), (9, 3));
        }
        _ => panic!("the pipeline has no operation for the caller"),
    }
    let pausing = ImageSpec::new(vec![
        Spec::new_resize(9, 3, SampleFilter::Nearest),
        Spec::Contrast { contrast: 30.0f32.to_bits() },
        Spec::Crop { x1: 0, y1: 0, x2: 2, y2: 2 },
    ]);
    let engine = match generate(&pausing, &picture(6, 5), &mark, OutputFormat::Png) {
        Ok(Rendering::Paused { engine, index }) => {
            assert_eq!(index, 1);
            assert_eq!((engine.width(), engine.height()), (9, 3));
            engine
        }
        _ => panic!("the contrast is the caller's"),
    };
    match resume(engine, &pausing, 2, &mark, OutputFormat::Bmp) {
        Ok(Rendering::Output { data, content_type }) => {
            assert_eq!(content_type, "image/bmp");
            let back = image::load_from_memory(&data).unwrap();
            assert_eq!((back.width(), back.height()), (2, 2));
        }
        _ => panic!("nothing is left for the caller"),
    }
}

#[test]
fn escaping_agrees_with_the_percent_encoding_crate() {
    let every: Vec<u8> = (0..=255).collect();
    let samples: [&[u8]; 6] =
        [b"", b"foo bar?", b"%", b"a-b_c.d~e", LOCATOR.as_bytes(), &every];
    for sample in samples {
        let expected =
            percent_encoding::percent_encode(sample, percent_encoding::NON_ALPHANUMERIC).to_string();
        assert_eq!(percent_encode(sample), expected);
        assert_eq!(percent_decode(expected.as_bytes()), sample);
    }
    assert_eq!(percent_encode(b"foo bar?"), "foo%20bar%3F");
    assert_eq!(percent_encode(&[0, 0x2f, 0x3a, 0x40, 0x5b, 0x60, 0x7b, 0xff]), "%00%2F%3A%40%5B%60%7B%FF");
}

#[test]
fn unescaping_agrees_with_the_percent_encoding_crate() {
    let samples: [&[u8]; 12] = [
        b"",
        b"%",
        b"%4",
        b"%41",
        b"%%41",
        b"%4g%2f%2F",
        b"a%00b%ff%FF%fF",
        b"%e4%b8%96",
        b"100%",
        b"%G1%1G%g1",
        b"%2%25",
        b"foo%20bar%3f",
    ];
    for sample in samples {
        let expected: Vec<u8> = percent_encoding::percent_decode(sample).collect();
        assert_eq!(percent_decode(sample), expected);
    }
    assert_eq!(percent_decode(b"foo%20bar%3f"), b"foo bar?");
    assert_eq!(percent_decode(b"%4g%2f%2F"), b"%4g//");
}
