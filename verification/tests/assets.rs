use boenthoescript::assets::{Asset, AssetType, EngineError};
use boenthoescript::rendering::{BlendMode, RenderingMode, TextureSpec};
use std::path::PathBuf;

#[test]
fn asset_type_goes_by_the_extension() {
    let of = |name: &str| Asset::preload(PathBuf::from(name), b"").get_type();
    assert_eq!(of("a/b/shader.vert"), AssetType::GlslVertexShader);
    assert_eq!(of("shader.FRAG"), AssetType::GlslFragmentShader);
    assert_eq!(of("demo.boe"), AssetType::BoenthoeScript);
    assert_eq!(of("x.Png"), AssetType::PngImage);
    assert_eq!(of("x.jpg"), AssetType::JpegImage);
    assert_eq!(of("x.gltf"), AssetType::GltfModel);
    assert_eq!(of("x.glb"), AssetType::GltfModel);
    assert_eq!(of("x.jpeg"), AssetType::Unknown);
    assert_eq!(of("boe"), AssetType::Unknown);
    assert_eq!(of(".boe"), AssetType::Unknown);
}

#[test]
fn asset_type_of_an_extension() {
    assert_eq!(AssetType::from_extension(Some("BOE")), AssetType::BoenthoeScript);
    assert_eq!(AssetType::from_extension(Some("boe ")), AssetType::Unknown);
    assert_eq!(AssetType::from_extension(Some("")), AssetType::Unknown);
    assert_eq!(AssetType::from_extension(None), AssetType::Unknown);
}

#[test]
fn preloaded_asset_is_ready() {
    let asset = Asset::preload(PathBuf::from("a.boe"), b"out x = hold(1, 2)");
    assert_eq!(asset.path(), &PathBuf::from("a.boe"));
    assert_eq!(asset.data().unwrap(), &b"out x = hold(1, 2)".to_vec());
    assert_eq!(asset.to_utf8().unwrap(), "out x = hold(1, 2)");
}

#[test]
fn pending_asset_has_no_data() {
    let asset = Asset::Pending { path: PathBuf::from("a.boe") };
    match asset.data() {
        Err(EngineError::AssetNotLoaded { path }) => assert_eq!(path, PathBuf::from("a.boe")),
        _ => panic!("expected AssetNotLoaded"),
    }
    match asset.to_utf8() {
        Err(EngineError::AssetNotLoaded { path }) => assert_eq!(path, PathBuf::from("a.boe")),
        _ => panic!("expected AssetNotLoaded"),
    }
}

#[test]
fn failed_asset_gives_its_message() {
    let asset = Asset::Error { path: PathBuf::from("a.boe"), message: "gone".to_string() };
    match asset.data() {
        Err(EngineError::AssetLoadError { path, message }) => {
            assert_eq!(path, PathBuf::from("a.boe"));
            assert_eq!(message, "gone");
        }
        _ => panic!("expected AssetLoadError"),
    }
}

#[test]
fn data_that_is_no_text_names_the_place() {
    let mut data = vec![b'a'; 120];
    data.push(0xff);
    data.push(b'b');
    let asset = Asset::preload(PathBuf::from("a.boe"), &data);
    match asset.to_utf8() {
        Err(EngineError::AssetParseError { path, message }) => {
            assert_eq!(path, PathBuf::from("a.boe"));
            assert_eq!(message, "UTF-8 error at 120");
        }
        _ => panic!("expected AssetParseError"),
    }
    let asset = Asset::preload(PathBuf::from("a.boe"), &[0xc3]);
    match asset.to_utf8() {
        Err(EngineError::AssetParseError { message, .. }) => {
            assert_eq!(message, "UTF-8 error at 0")
        }
        _ => panic!("expected AssetParseError"),
    }
}

#[test]
fn ready_asset_becomes_pending() {
    let asset = Asset::preload(PathBuf::from("a.boe"), b"x");
    match asset.to_pending() {
        Asset::Pending { path } => assert_eq!(path, PathBuf::from("a.boe")),
        _ => panic!("expected Pending"),
    }
    let asset = Asset::Preloaded { path: PathBuf::from("b"), data: vec![1, 2] };
    match asset.to_pending() {
        Asset::Preloaded { path, data } => {
            assert_eq!(path, PathBuf::from("b"));
            assert_eq!(data, vec![1, 2]);
        }
        _ => panic!("expected Preloaded"),
    }
    let asset = Asset::Error { path: PathBuf::from("c"), message: "m".to_string() };
    match asset.to_pending() {
        Asset::Error { path, message } => {
            assert_eq!(path, PathBuf::from("c"));
            assert_eq!(message, "m");
        }
        _ => panic!("expected Error"),
    }
}

#[test]
fn errors_carry_the_path_of_the_asset() {
    let asset = Asset::preload(PathBuf::from("a.txt"), b"x");
    match EngineError::parse_error(&asset, 42) {
        EngineError::AssetParseError { path, message } => {
            assert_eq!(path, PathBuf::from("a.txt"));
            assert_eq!(message, "42");
        }
        _ => panic!("expected AssetParseError"),
    }
    match EngineError::unsupported_asset_format(&asset, ".boe") {
        EngineError::UnsupportedAssetFormat { path, expected } => {
            assert_eq!(path, PathBuf::from("a.txt"));
            assert_eq!(expected, ".boe");
        }
        _ => panic!("expected UnsupportedAssetFormat"),
    }
}

#[test]
fn rendering_modes() {
    assert!(!RenderingMode::Phong.uses_normal_maps());
    assert!(RenderingMode::PhongWithNormalMaps.uses_normal_maps());
    assert!(RenderingMode::PhysicalBasedRendering.uses_normal_maps());
    assert_eq!(RenderingMode::default(), RenderingMode::PhysicalBasedRendering);
    assert_eq!(BlendMode::default(), BlendMode::Replace);
}

#[test]
fn texture_specs() {
    assert_eq!(
        TextureSpec::base_color(),
        TextureSpec { linear_colors: false, default_data: [0xff, 0xff, 0xff, 0xff] }
    );
    assert_eq!(
        TextureSpec::normal_map(),
        TextureSpec { linear_colors: true, default_data: [0x00, 0x00, 0xff, 0x00] }
    );
    assert_eq!(
        TextureSpec::emissive_texture(),
        TextureSpec { linear_colors: false, default_data: [0x00, 0x00, 0x00, 0x00] }
    );
}
