use markdown_viewer::decode::normalize_premultiplied;
use markdown_viewer::decode::RasterImage;
use markdown_viewer::fetch::begin_load;
use markdown_viewer::fetch::on_fetched;
use markdown_viewer::fetch::on_rasterized;
use markdown_viewer::fetch::LoadAction;
use markdown_viewer::fetch::LoadPhase;
use markdown_viewer::png_fallback_url;
use markdown_viewer::rgba_to_bgra;

/// Rasterize SVG bytes with the vector stack and normalize the pixels
/// through the library, the way the viewer resolves vector images.
fn rasterize(svg: &[u8]) -> (u32, u32, Vec<u8>) {
    let opt = resvg::usvg::Options::default();
    let tree = resvg::usvg::Tree::from_data(svg, &opt).expect("SVG should parse");
    let w = tree.size().width().ceil() as u32;
    let h = tree.size().height().ceil() as u32;
    let mut pixmap = resvg::tiny_skia::Pixmap::new(w, h).expect("pixmap");
    let mut pixmap_mut = pixmap.as_mut();
    resvg::render(&tree, resvg::tiny_skia::Transform::identity(), &mut pixmap_mut);
    let mut buf = pixmap.data().to_vec();
    normalize_premultiplied(&mut buf);
    (w, h, buf)
}

#[test]
fn rasterize_simple_1x1_svg() {
    let svg =
        br##"<svg xmlns="http://www.w3.org/2000/svg" width="1" height="1"><rect width="1" height="1" fill="#ff0000"/></svg>"##;
    let (w, h, rgba) = rasterize(svg);
    assert_eq!(w, 1);
    assert_eq!(h, 1);
    // Should be solid red
    assert_eq!(rgba[0], 255);
    assert_eq!(rgba[1], 0);
    assert_eq!(rgba[2], 0);
    // Alpha should be fully opaque
    assert_eq!(rgba[3], 255);
}

#[test]
fn rasterize_orange_svg() {
    // Orange SVG: #FFA500 = RGB(255, 165, 0)
    let svg = br##"<svg xmlns="http://www.w3.org/2000/svg" width="100" height="100" viewBox="0 0 100 100"><rect width="100" height="100" fill="#FFA500"/></svg>"##;
    let (w, h, rgba) = rasterize(svg);
    assert_eq!(w, 100);
    assert_eq!(h, 100);

    // Check the center pixel
    let center = ((50 * 100 + 50) * 4) as usize;
    assert_eq!(rgba[center], 255, "Red channel should be 255");
    assert_eq!(rgba[center + 1], 165, "Green channel should be 165");
    assert_eq!(rgba[center + 2], 0, "Blue channel should be 0");
    assert_eq!(rgba[center + 3], 255, "Alpha channel should be 255");
}

#[test]
fn png_fallback_with_query() {
    let in_url = "https://placehold.co/600x400?text=Hello+World";
    let out = png_fallback_url(in_url);
    assert_eq!(
        out,
        "https://placehold.co/600x400.png?text=Hello+World".to_string()
    );
}

#[test]
fn png_fallback_without_query() {
    let in_url = "https://placehold.co/800";
    let out = png_fallback_url(in_url);
    assert_eq!(out, "https://placehold.co/800.png".to_string());
}

#[test]
fn png_fallback_examples_from_placeholder_services() {
    assert_eq!(
        png_fallback_url("https://x/600x400?text=Hi"),
        "https://x/600x400.png?text=Hi"
    );
    assert_eq!(png_fallback_url("https://x/800"), "https://x/800.png");
}

#[test]
fn decoding_reads_dimensions_and_pixels() {
    let img = image::RgbaImage::from_pixel(2, 3, image::Rgba([9, 20, 31, 255]));
    let mut png_bytes: Vec<u8> = Vec::new();
    img.write_to(
        &mut std::io::Cursor::new(&mut png_bytes),
        image::ImageFormat::Png,
    )
    .expect("encode");
    let action = markdown_viewer::fetch::on_local_bytes(Ok(png_bytes));
    match action {
        LoadAction::Finish(decoded) => {
            assert_eq!(decoded.width, 2);
            assert_eq!(decoded.height, 3);
            assert_eq!(decoded.pixels.len(), 24);
            assert_eq!(&decoded.pixels[0..4], &[9, 20, 31, 255]);
        },
        _ => panic!("expected a decoded image"),
    }
}

#[test]
fn decoding_rejects_garbage() {
    let action = markdown_viewer::fetch::on_local_bytes(Ok(b"this is not an image".to_vec()));
    assert!(matches!(action, LoadAction::Fail(_)));
}

#[test]
fn rgba_to_bgra_swaps_channels_in_place() {
    let mut pixels: Vec<u8> = vec![1, 2, 3, 4, 5, 6, 7, 8];
    rgba_to_bgra(&mut pixels);
    assert_eq!(pixels, vec![3, 2, 1, 4, 7, 6, 5, 8]);
}

#[test]
fn normalize_detects_bgra_and_unpremultiplies() {
    // One red pixel stored premultiplied in BGRA at half alpha.
    let mut pixels: Vec<u8> = vec![0, 0, 128, 128];
    normalize_premultiplied(&mut pixels);
    assert_eq!(pixels, vec![255, 0, 0, 128]);
}

#[test]
fn normalize_zeroes_fully_transparent_pixels() {
    let mut pixels: Vec<u8> = vec![7, 8, 9, 0];
    normalize_premultiplied(&mut pixels);
    assert_eq!(pixels, vec![0, 0, 0, 0]);
}

#[test]
fn load_pipeline_decides_fetch_then_fallback() {
    // A remote reference starts with a fetch of the reference itself.
    let (action, phase) = begin_load("https://x/800");
    match action {
        LoadAction::FetchUrl(u) => assert_eq!(u, "https://x/800"),
        _ => panic!("expected a fetch"),
    }
    assert_eq!(phase, LoadPhase::Primary);

    // Undecodable non-SVG bytes fall back to the PNG variant once.
    let (action, phase) = on_fetched("https://x/800", LoadPhase::Primary, Ok(b"junk".to_vec()));
    match action {
        LoadAction::FetchUrl(u) => assert_eq!(u, "https://x/800.png"),
        _ => panic!("expected the PNG fallback"),
    }
    assert_eq!(phase, LoadPhase::Fallback);

    // Failing again ends the pipeline with an error.
    let (action, _) = on_fetched("https://x/800", LoadPhase::Fallback, Ok(b"junk".to_vec()));
    assert!(matches!(action, LoadAction::Fail(_)));
}

#[test]
fn load_pipeline_rasterizes_svg_bytes() {
    let svg = b"<svg xmlns=\"http://www.w3.org/2000/svg\" width=\"1\" height=\"1\"/>".to_vec();
    let (action, _) = on_fetched("https://x/pic.svg", LoadPhase::Primary, Ok(svg.clone()));
    match action {
        LoadAction::Rasterize(bytes) => assert_eq!(bytes, svg),
        _ => panic!("expected rasterization"),
    }

    // A failed rasterization goes to the PNG fallback.
    let failure = markdown_viewer::DecodeError::SvgRasterization {
        detail: "no rasterizer".to_string(),
    };
    let (action, phase) = on_rasterized("https://x/pic.svg", Err(failure));
    match action {
        LoadAction::FetchUrl(u) => assert_eq!(u, "https://x/pic.svg.png"),
        _ => panic!("expected the PNG fallback"),
    }
    assert_eq!(phase, LoadPhase::Fallback);

    // Successful premultiplied pixels come back normalized.
    let raw = RasterImage { width: 1, height: 1, pixels: vec![0, 0, 128, 128] };
    let (action, _) = on_rasterized("https://x/pic.svg", Ok(raw));
    match action {
        LoadAction::Finish(img) => {
            assert_eq!((img.width, img.height), (1, 1));
            assert_eq!(img.pixels, vec![255, 0, 0, 128]);
        },
        _ => panic!("expected a finished image"),
    }

    // A buffer that is not whole four-byte pixels also falls back.
    let ragged = RasterImage { width: 1, height: 1, pixels: vec![0, 0, 128] };
    let (action, phase) = on_rasterized("https://x/pic.svg", Ok(ragged));
    match action {
        LoadAction::FetchUrl(u) => assert_eq!(u, "https://x/pic.svg.png"),
        _ => panic!("expected the PNG fallback"),
    }
    assert_eq!(phase, LoadPhase::Fallback);
}
