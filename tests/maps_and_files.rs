use std::io::Cursor;
use tiff::decoder::{Decoder, DecodingResult};
use tiff::encoder::{colortype, TiffEncoder};
use cview::appdata::AppData;
use cview::capture::{CaptureError, CorrectionError, FullWellMode};
use cview::correction::CorrectionMaps;
use cview::files::{dark_map_file_name, defect_input_file_name, parse_dark_map_file_name};
use cview::image::{ImageError, RawImage};

#[test]
fn dark_map_file_names() {
    assert_eq!(dark_map_file_name(100), b"DarkMap_100ms.tif".to_vec());
    assert_eq!(dark_map_file_name(0), b"DarkMap_0ms.tif".to_vec());
    assert_eq!(dark_map_file_name(u32::MAX), b"DarkMap_4294967295ms.tif".to_vec());
    assert_eq!(defect_input_file_name(100, FullWellMode::High), b"1510HS_1510_100_DarkHFW_Mean.tif".to_vec());
    assert_eq!(defect_input_file_name(25, FullWellMode::Low), b"1510HS_1510_25_DarkLFW_Mean.tif".to_vec());
}

#[test]
fn dark_map_file_names_parse_back() {
    assert_eq!(parse_dark_map_file_name("DarkMap_100ms.tif"), Some(100));
    assert_eq!(parse_dark_map_file_name("DarkMap_007ms.tif"), Some(7));
    assert_eq!(parse_dark_map_file_name("DarkMap_4294967295ms.tif"), Some(u32::MAX));
    assert_eq!(parse_dark_map_file_name("DarkMap_4294967296ms.tif"), None);
    assert_eq!(parse_dark_map_file_name("DarkMap_ms.tif"), None);
    assert_eq!(parse_dark_map_file_name("DarkMap_1a0ms.tif"), None);
    assert_eq!(parse_dark_map_file_name("DarkMap_100ms.tiff"), None);
    assert_eq!(parse_dark_map_file_name("darkMap_100ms.tif"), None);
    assert_eq!(parse_dark_map_file_name("GlobalDefectMap.tif"), None);
    for e in [0u32, 1, 9, 10, 100, 65535, 123456789] {
        let name = String::from_utf8(dark_map_file_name(e)).unwrap();
        assert_eq!(parse_dark_map_file_name(&name), Some(e));
    }
}

#[test]
fn app_data_records_dark_map_files() {
    let mut data = AppData::new(None);
    assert_eq!(data.add_dark_map_file("DarkMap_100ms.tif", "maps/DarkMap_100ms.tif".to_string()), Some(100));
    assert_eq!(data.add_dark_map_file("notes.txt", "maps/notes.txt".to_string()), None);
    assert_eq!(data.dark_map(100).unwrap(), "maps/DarkMap_100ms.tif");
    assert_eq!(data.dark_map(200).unwrap_err(), CaptureError::Unknown);
    assert_eq!(data.dark_maps().len(), 1);
    assert!(data.defect_map().is_none());
    let data = AppData::new(Some("DefectMap/GlobalDefectMap.tif".to_string()));
    assert_eq!(data.defect_map().unwrap(), "DefectMap/GlobalDefectMap.tif");
}

#[test]
fn correction_maps_dark_correct() {
    let mut maps = CorrectionMaps::new();
    let img = RawImage::new(2, 1, vec![1000, 200]).unwrap();
    assert_eq!(maps.dark_correct_image(&img, 100).unwrap_err(), CorrectionError::FileNotFound);
    maps.set_dark_map(100, RawImage::new(2, 1, vec![400, 600]).unwrap());
    assert!(maps.has_dark_map(100));
    assert!(!maps.has_dark_map(200));
    let out = maps.dark_correct_image(&img, 100).unwrap();
    assert_eq!(out.pixels, vec![900, 0]);
    let wide = RawImage::filled(3, 1, 0);
    assert_eq!(maps.dark_correct_image(&wide, 100).unwrap_err(), CorrectionError::SizeMismatch);
    // replacing a map keeps one entry per exposure
    maps.set_dark_map(100, RawImage::filled(2, 1, 300));
    assert_eq!(maps.get_dark_map_exp_times(), vec![100]);
    assert!(!maps.has_defect_map());
}

#[test]
fn dark_map_at_offset_level_is_identity() {
    let mut maps = CorrectionMaps::new();
    maps.set_dark_map(50, RawImage::filled(3, 2, 300));
    let img = RawImage::new(3, 2, vec![0, 1, 299, 300, 8000, 16383]).unwrap();
    let out = maps.dark_correct_image(&img, 50).unwrap();
    assert_eq!(out.pixels, img.pixels);
}

#[test]
fn raw_image_validation() {
    assert_eq!(RawImage::new(0, 1, vec![]).unwrap_err(), ImageError::BadDimensions);
    assert_eq!(RawImage::new(2, 2, vec![1, 2, 3]).unwrap_err(), ImageError::LengthMismatch);
    assert_eq!(RawImage::new(2, 1, vec![1, 16384]).unwrap_err(), ImageError::PixelOutOfRange);
    let img = RawImage::new(2, 1, vec![1, 16383]).unwrap();
    assert_eq!(img.pixel(1, 0), 16383);
}

#[test]
fn accumulate_clamps() {
    let a = RawImage::new(3, 1, vec![0, 10000, 16383]).unwrap();
    let b = RawImage::new(3, 1, vec![5, 10000, 16383]).unwrap();
    assert_eq!(a.accumulate(&b).pixels, vec![5, 16383, 16383]);
}

#[test]
fn average_rounds_to_nearest() {
    let frames = vec![
        RawImage::new(2, 1, vec![1, 0]).unwrap(),
        RawImage::new(2, 1, vec![2, 0]).unwrap(),
    ];
    let avg = cview::image::average_frames(&frames);
    assert_eq!(avg.pixels, vec![2, 0]);
}

#[test]
fn dark_map_round_trips_through_tiff() {
    let frames = vec![RawImage::filled(7, 5, 1000), RawImage::filled(7, 5, 1006)];
    let mut map = cview::image::average_frames(&frames);
    map.pixels[3] = 16383;
    let mut bytes = Cursor::new(Vec::new());
    {
        let mut enc = TiffEncoder::new(&mut bytes).unwrap();
        enc.write_image::<colortype::Gray16>(map.width, map.height, &map.pixels).unwrap();
    }
    bytes.set_position(0);
    let mut dec = Decoder::new(bytes).unwrap();
    assert_eq!(dec.dimensions().unwrap(), (7, 5));
    let px = match dec.read_image().unwrap() {
        DecodingResult::U16(v) => v,
        _ => panic!("not a 16-bit image"),
    };
    let back = RawImage::new(7, 5, px).unwrap();
    assert_eq!(back.pixels, map.pixels);
}
