use thumbor::pb::filter::Filter;
use thumbor::pb::parse::from_wire;
use thumbor::pb::resize::{ResizeType, SampleFilter, SamplingFilter};
use thumbor::pb::wire::to_wire;
use thumbor::pb::{ImageSpec, Spec, TokenDecodeError};

fn hex(text: &str) -> Vec<u8> {
    let digits: Vec<u8> = text
        .bytes()
        .map(|c| match c {
            b'0'..=b'9' => c - b'0',
            b'a'..=b'f' => c - b'a' + 10,
            _ => panic!("not a hex digit"),
        })
        .collect();
    digits.chunks(2).map(|pair| pair[0] * 16 + pair[1]).collect()
}

#[test]
fn encode_spec_could_be_decoded() {
    let spec1 = Spec::new_resize(600, 600, SampleFilter::CatmullRom);
    let spec2 = Spec::new_filter(Filter::Marine);
    let image_spec = ImageSpec::new(vec![spec1, spec2]);
    let s: String = image_spec.encode();
    println!("encoded: {}", s);
    assert_eq!(image_spec, s.as_str().try_into().unwrap());
}

#[test]
fn token_of_a_known_pipeline_is_exact() {
    let pipeline = ImageSpec::new(vec![
        Spec::new_resize(600, 600, SampleFilter::CatmullRom),
        Spec::new_filter(Filter::Marine),
    ]);
    assert_eq!(
        to_wire(&pipeline.specs),
        hex("0a0a0a0808d80410d80420030a0432020803")
    );
    assert_eq!(pipeline.encode(), "CgoKCAjYBBDYBCADCgQyAggD");
    assert_eq!(pipeline.try_encode(), Some("CgoKCAjYBBDYBCADCgQyAggD".to_string()));
}

#[test]
fn encoding_is_deterministic() {
    let make = || {
        ImageSpec::new(vec![
            Spec::new_draw_text("Hello World".to_string(), 40, 40),
            Spec::new_oil(),
            Spec::Crop { x1: 1, y1: 2, x2: 3, y2: 4 },
        ])
    };
    assert_eq!(make().encode(), make().encode());
}

#[test]
fn empty_pipeline_has_the_empty_token() {
    let pipeline = ImageSpec::new(vec![]);
    assert_eq!(pipeline.encode(), "");
    assert_eq!(ImageSpec::decode(""), Ok(ImageSpec::new(vec![])));
}

#[test]
fn every_operation_survives_the_round_trip() {
    let pipeline = ImageSpec::new(vec![
        Spec::Resize { width: 0, height: u32::MAX, rtype: -1, filter: i32::MIN },
        Spec::Resize { width: 1, height: 1, rtype: i32::MAX, filter: 99 },
        Spec::Crop { x1: 0, y1: 127, x2: 128, y2: 16384 },
        Spec::Flipv,
        Spec::Fliph,
        Spec::Contrast { contrast: 1.5f32.to_bits() },
        Spec::Contrast { contrast: 0 },
        Spec::Contrast { contrast: (-0.0f32).to_bits() },
        Spec::Contrast { contrast: f32::NAN.to_bits() },
        Spec::Filter { filter: 0 },
        Spec::Filter { filter: -7 },
        Spec::Watermark { x: 20, y: 0, alpha: 255 },
        Spec::Text { text: String::new(), x: 0, y: 0 },
        Spec::Text { text: "h\u{e9}llo \u{4e16}\u{754c} \u{1f600}".to_string(), x: 7, y: 0 },
        Spec::Oil { radius: -2, intensity: 0 },
        Spec::new_oil(),
        Spec::new_resize_seam_carve(10, 20),
    ]);
    let token = pipeline.encode();
    assert_eq!(ImageSpec::decode(&token), Ok(pipeline));
}

#[test]
fn negative_selector_is_written_in_ten_bytes() {
    let pipeline = vec![Spec::Resize { width: 1, height: 1, rtype: -1, filter: 99 }];
    assert_eq!(
        to_wire(&pipeline),
        hex("0a130a110801100118ffffffffffffffffff012063")
    );
    assert_eq!(from_wire(&hex("0a130a110801100118ffffffffffffffffff012063")), Some(pipeline));
}

#[test]
fn contrast_is_written_as_four_bytes() {
    let pipeline = vec![Spec::Contrast { contrast: 1.5f32.to_bits() }];
    assert_eq!(to_wire(&pipeline), hex("0a072a050d0000c03f"));
}

#[test]
fn token_uses_the_url_safe_alphabet_without_padding() {
    let crop = ImageSpec::new(vec![Spec::Crop { x1: 251, y1: 255, x2: 1023, y2: 4031 }]);
    assert_eq!(crop.encode(), "Cg4SDAj7ARD_ARj_ByC_Hw");
    let text = ImageSpec::new(vec![Spec::new_draw_text("\u{e9}~?".to_string(), 0, 0)]);
    assert_eq!(text.encode(), "CghCBgoEw6l-Pw");
    for token in [crop.encode(), text.encode()] {
        assert!(token.chars().all(|c| c.is_ascii_alphanumeric() || c == '-' || c == '_'));
        assert_eq!(ImageSpec::decode(&token).map(|p| p.encode()), Ok(token));
    }
}

#[test]
fn standard_alphabet_and_padding_are_refused() {
    assert_eq!(ImageSpec::decode("Cg4SDAj7ARD/ARj/ByC/Hw"), Err(TokenDecodeError::Text));
    assert_eq!(ImageSpec::decode("Cg4SDAj7ARD_ARj_ByC_Hw=="), Err(TokenDecodeError::Text));
    assert_eq!(ImageSpec::decode("not a token"), Err(TokenDecodeError::Text));
    assert_eq!(ImageSpec::decode("A"), Err(TokenDecodeError::Text));
}

#[test]
fn unknown_operation_tag_is_refused() {
    assert_eq!(from_wire(&hex("0a025200")), None);
    assert_eq!(ImageSpec::decode("CgJSAA"), Err(TokenDecodeError::Pipeline));
    // a known operation before and after the unknown one does not save it
    assert_eq!(from_wire(&hex("0a021a000a0252000a022200")), None);
    assert_eq!(from_wire(&hex("0a021a000a022200")), Some(vec![Spec::Flipv, Spec::Fliph]));
    // tag zero and a tag with another wire kind
    assert_eq!(from_wire(&hex("0a020200")), None);
    assert_eq!(from_wire(&hex("0a021800")), None);
}

#[test]
fn only_the_one_encoding_of_a_pipeline_is_accepted() {
    // a field written at its default
    assert_eq!(from_wire(&hex("0a0432020800")), None);
    // an over-long varint
    assert_eq!(from_wire(&hex("0a053203088300")), None);
    // fields out of order
    assert_eq!(from_wire(&hex("0a0612041001080100")), None);
    assert_eq!(from_wire(&hex("0a06120410010801")), None);
    assert_eq!(
        from_wire(&hex("0a06120408011001")),
        Some(vec![Spec::Crop { x1: 1, y1: 1, x2: 0, y2: 0 }])
    );
    // a field of another operation
    assert_eq!(from_wire(&hex("0a041a021001")), None);
    // a frame that is cut short, and bytes left over
    assert_eq!(from_wire(&hex("0a0432020803").as_slice()[..5]), None);
    assert_eq!(from_wire(&hex("0a043202080300")), None);
    // an empty frame holds no operation
    assert_eq!(from_wire(&hex("0a00")), None);
    // a number too large for its field
    assert_eq!(from_wire(&hex("0a081206088080808010")), None);
    assert_eq!(
        from_wire(&hex("0a08120608ffffffff0f")),
        Some(vec![Spec::Crop { x1: u32::MAX, y1: 0, x2: 0, y2: 0 }])
    );
    // a selector that is neither a 32-bit number nor the offset form of one
    assert_eq!(from_wire(&hex("0a083206088080808008")), None);
    // a varint of more than ten bytes
    assert_eq!(from_wire(&hex("0a0e320c08ffffffffffffffffffff01")), None);
    // text that is not UTF-8
    assert_eq!(from_wire(&hex("0a0642040a02c328")), None);
}

#[test]
fn seam_carve_keeps_any_filter_value() {
    let pipeline = ImageSpec::new(vec![Spec::Resize {
        width: 10,
        height: 10,
        rtype: ResizeType::SeamCarve.number(),
        filter: 4242,
    }]);
    assert_eq!(ImageSpec::decode(&pipeline.encode()), Ok(pipeline));
}

#[test]
fn out_of_range_selectors_decode_as_they_are() {
    let pipeline = ImageSpec::new(vec![
        Spec::Resize { width: 10, height: 10, rtype: 7, filter: 6 },
        Spec::Filter { filter: 4 },
    ]);
    assert_eq!(ImageSpec::decode(&pipeline.encode()), Ok(pipeline));
}

#[test]
fn scenario_resize_watermark_filter() {
    let pipeline = ImageSpec::new(vec![
        Spec::new_resize(500, 800, SampleFilter::CatmullRom),
        Spec::new_watermark(20, 20, 1),
        Spec::new_filter(Filter::Marine),
    ]);
    let token = pipeline.encode();
    assert_eq!(token, "CgoKCAj0AxCgBiADCgg6BggUEBQYAQoEMgIIAw");
    let decoded = ImageSpec::decode(&token).unwrap();
    assert_eq!(decoded.specs.len(), 3);
    assert_eq!(decoded.specs[0], Spec::Resize { width: 500, height: 800, rtype: 0, filter: 3 });
    assert_eq!(decoded.specs[1], Spec::Watermark { x: 20, y: 20, alpha: 1 });
    assert_eq!(decoded.specs[2], Spec::Filter { filter: 3 });
}

#[test]
fn scenario_oil_watermark_filter_text_decodes() {
    let token = "CglKBwgCFQAASEIKCDoGCBQQFBgBCgQyAggDChNCEQoLSGVsbG8gV29ybGQQKBgo";
    let decoded = ImageSpec::decode(token).unwrap();
    assert_eq!(
        decoded.specs,
        vec![
            Spec::Oil { radius: 2, intensity: 50.0f32.to_bits() },
            Spec::Watermark { x: 20, y: 20, alpha: 1 },
            Spec::Filter { filter: 3 },
            Spec::Text { text: "Hello World".to_string(), x: 40, y: 40 },
        ]
    );
    assert_eq!(decoded.encode(), token);
}

#[test]
fn builders_fill_the_fields() {
    assert_eq!(
        Spec::new_resize_seam_carve(3, 4),
        Spec::Resize { width: 3, height: 4, rtype: 1, filter: 0 }
    );
    assert_eq!(
        Spec::new_resize(3, 4, SampleFilter::Lanczos3),
        Spec::Resize { width: 3, height: 4, rtype: 0, filter: 5 }
    );
    assert_eq!(Spec::new_filter(Filter::Islands), Spec::Filter { filter: 2 });
    assert_eq!(Spec::new_watermark(1, 2, 3), Spec::Watermark { x: 1, y: 2, alpha: 3 });
    assert_eq!(
        Spec::new_draw_text("a".to_string(), 1, 2),
        Spec::Text { text: "a".to_string(), x: 1, y: 2 }
    );
    assert_eq!(Spec::new_oil(), Spec::Oil { radius: 2, intensity: 50.0f32.to_bits() });
    assert_eq!(ImageSpec::new(vec![Spec::Flipv]).specs, vec![Spec::Flipv]);
}

#[test]
fn selectors_and_their_numbers() {
    assert_eq!(Filter::Unspecified.to_str(), None);
    assert_eq!(Filter::Oceanic.to_str(), Some("oceanic"));
    assert_eq!(Filter::Islands.to_str(), Some("islands"));
    assert_eq!(Filter::Marine.to_str(), Some("marine"));
    for (number, filter) in
        [(0, Filter::Unspecified), (1, Filter::Oceanic), (2, Filter::Islands), (3, Filter::Marine)]
    {
        assert_eq!(filter.number(), number);
        assert_eq!(Filter::from_i32(number), Some(filter));
    }
    assert_eq!(Filter::from_i32(4), None);
    assert_eq!(Filter::from_i32(-1), None);
    assert_eq!(ResizeType::from_i32(0), Some(ResizeType::Normal));
    assert_eq!(ResizeType::from_i32(1), Some(ResizeType::SeamCarve));
    assert_eq!(ResizeType::from_i32(2), None);
    assert_eq!(ResizeType::SeamCarve.number(), 1);
    let kernels = [
        (0, SampleFilter::Undefined, SamplingFilter::Nearest),
        (1, SampleFilter::Nearest, SamplingFilter::Nearest),
        (2, SampleFilter::Triangle, SamplingFilter::Triangle),
        (3, SampleFilter::CatmullRom, SamplingFilter::CatmullRom),
        (4, SampleFilter::Gaussian, SamplingFilter::Gaussian),
        (5, SampleFilter::Lanczos3, SamplingFilter::Lanczos3),
    ];
    for (number, selector, kernel) in kernels {
        assert_eq!(selector.number(), number);
        assert_eq!(SampleFilter::from_i32(number), Some(selector));
        assert_eq!(SamplingFilter::from(selector), kernel);
    }
    assert_eq!(SampleFilter::from_i32(6), None);
}
