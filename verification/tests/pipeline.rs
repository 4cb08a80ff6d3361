use image_viewer::batch::{
    result_for, Acceptance, BatchState, Dispatch, Selection, ThumbnailResult,
};
use image_viewer::collector::RootListing;
use image_viewer::error::Error;
use image_viewer::geometry::Envelope;
use image_viewer::worker::{FailureKind, RawImage, ThumbnailOutcome};
use std::io::{Cursor, ErrorKind};

fn png(width: u32, height: u32, shade: u8) -> Vec<u8> {
    let source = image::RgbaImage::from_pixel(width, height, image::Rgba([shade, shade, shade, 255]));
    let mut out = Cursor::new(Vec::new());
    source.write_to(&mut out, image::ImageFormat::Png).unwrap();
    out.into_inner()
}

fn decode(path: &str, bytes: &[u8]) -> Result<RawImage, FailureKind> {
    let format = image::ImageFormat::from_path(path).map_err(|_| FailureKind::InvalidImage)?;
    let decoded = image::ImageReader::with_format(Cursor::new(bytes), format)
        .decode()
        .map_err(|_| FailureKind::InvalidImage)?;
    let rgba = decoded.into_rgba8();
    Ok(RawImage { width: rgba.width(), height: rgba.height(), pixels: rgba.into_raw() })
}

fn read_and_decode(path: &str) -> Result<Result<RawImage, FailureKind>, Error> {
    read(path).map(|bytes| decode(path, &bytes))
}

fn read(path: &str) -> Result<Vec<u8>, Error> {
    match path {
        "/a/small.png" => Ok(png(4, 4, 40)),
        "/a/wide.png" => Ok(png(40, 10, 80)),
        "/a/corrupt.png" => Ok(vec![0x89, b'P', b'N', b'G', 1, 2, 3]),
        "/b/tall.png" => Ok(png(10, 40, 120)),
        _ => Err(Error::IoError(ErrorKind::NotFound)),
    }
}

fn started(outcome: Selection) -> Dispatch {
    match outcome {
        Selection::Started(dispatch) => dispatch,
        other => panic!("no generation was started: {:?}", other),
    }
}

fn work(dispatch: &Dispatch, envelope: &Envelope) -> Vec<ThumbnailResult> {
    dispatch
        .paths
        .iter()
        .map(|path| result_for(dispatch.generation, path.clone(), read_and_decode(path), envelope))
        .collect()
}

fn folder_a() -> RootListing {
    RootListing {
        root: "/a".to_string(),
        entries: Ok(vec![
            "/a/small.png".to_string(),
            "/a/readme.txt".to_string(),
            "/a/corrupt.png".to_string(),
            "/a/wide.png".to_string(),
            "/a/gone.png".to_string(),
        ]),
    }
}

fn folder_b() -> RootListing {
    RootListing { root: "/b".to_string(), entries: Ok(vec!["/b/tall.png".to_string()]) }
}

fn sizes(state: &BatchState) -> Vec<(String, u32, u32, u8)> {
    state
        .snapshot()
        .iter()
        .map(|thumbnail| {
            (
                thumbnail.source_path.clone(),
                thumbnail.bitmap.width,
                thumbnail.bitmap.height,
                thumbnail.bitmap.pixels[0],
            )
        })
        .collect()
}

#[test]
fn folder_with_good_and_bad_files_settles() {
    let envelope = Envelope::new(20, 20).unwrap();
    let mut state = BatchState::new();
    let dispatch = started(state.select(Ok(vec![folder_a()])));
    assert_eq!(dispatch.paths.len(), 4);
    assert_eq!(state.progress(), (0, 4));
    for result in work(&dispatch, &envelope) {
        assert_eq!(state.accept(result), Acceptance::Accepted);
    }
    assert!(state.is_settled());
    assert_eq!(state.progress(), (4, 4));
    assert_eq!(
        sizes(&state),
        vec![("/a/small.png".to_string(), 4, 4, 40), ("/a/wide.png".to_string(), 20, 5, 80)]
    );
    for thumbnail in state.snapshot() {
        let bitmap = thumbnail.bitmap;
        assert_eq!(bitmap.pixels.len(), 4 * bitmap.width as usize * bitmap.height as usize);
        assert!(bitmap.width <= 20 && bitmap.height <= 20);
    }
}

#[test]
fn work_overtaken_by_a_new_selection_is_never_shown() {
    let envelope = Envelope::new(20, 20).unwrap();
    let mut state = BatchState::new();
    let first = started(state.select(Ok(vec![folder_a()])));
    let mut late = work(&first, &envelope);
    assert_eq!(state.accept(late.remove(0)), Acceptance::Accepted);

    let second = started(state.select(Ok(vec![folder_b()])));
    assert_eq!(second.superseded, Some(first.generation));
    for result in late {
        assert_eq!(state.accept(result), Acceptance::Stale);
        assert_eq!(state.progress(), (0, 1));
        assert!(state.snapshot().is_empty());
    }
    for result in work(&second, &envelope) {
        assert_eq!(state.accept(result), Acceptance::Accepted);
    }
    assert!(state.is_settled());
    assert_eq!(sizes(&state), vec![("/b/tall.png".to_string(), 5, 20, 120)]);
}

#[test]
fn results_may_arrive_in_any_order() {
    let envelope = Envelope::new(20, 20).unwrap();
    let mut state = BatchState::new();
    let dispatch = started(state.select(Ok(vec![folder_b(), folder_a()])));
    assert_eq!(
        dispatch.paths,
        vec![
            "/b/tall.png".to_string(),
            "/a/small.png".to_string(),
            "/a/corrupt.png".to_string(),
            "/a/wide.png".to_string(),
            "/a/gone.png".to_string()
        ]
    );
    let mut results = work(&dispatch, &envelope);
    results.reverse();
    for result in results {
        assert_eq!(state.accept(result), Acceptance::Accepted);
    }
    assert_eq!(state.progress(), (5, 5));
    assert_eq!(
        sizes(&state),
        vec![
            ("/a/wide.png".to_string(), 20, 5, 80),
            ("/a/small.png".to_string(), 4, 4, 40),
            ("/b/tall.png".to_string(), 5, 20, 120)
        ]
    );
}

#[test]
fn result_carries_generation_path_and_outcome() {
    let envelope = Envelope::new(20, 20).unwrap();
    let result = result_for(7, "/a/wide.png".to_string(), read_and_decode("/a/wide.png"), &envelope);
    assert_eq!(result.generation, 7);
    assert_eq!(result.source_path, "/a/wide.png");
    match result.outcome {
        ThumbnailOutcome::Bitmap(bitmap) => {
            assert_eq!((bitmap.width, bitmap.height), (20, 5));
            assert_eq!(bitmap.pixels, [80u8, 80, 80, 255].repeat(20 * 5));
        }
        ThumbnailOutcome::Failed(kind) => panic!("no bitmap: {:?}", kind),
    }

    let result = result_for(8, "/a/gone.png".to_string(), read_and_decode("/a/gone.png"), &envelope);
    assert_eq!(result.generation, 8);
    assert_eq!(result.source_path, "/a/gone.png");
    assert!(matches!(result.outcome, ThumbnailOutcome::Failed(FailureKind::Unreadable)));

    let result = result_for(9, "/a/corrupt.png".to_string(), read_and_decode("/a/corrupt.png"), &envelope);
    assert_eq!(result.generation, 9);
    assert_eq!(result.source_path, "/a/corrupt.png");
    assert!(matches!(result.outcome, ThumbnailOutcome::Failed(FailureKind::InvalidImage)));
}
