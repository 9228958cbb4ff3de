use lle_gui::colormap::{colormap_from_samples, get_colormap, TextureFormat};

#[test]
fn viridis_table_ends() {
    let t = get_colormap(256, TextureFormat::Rgba8Unorm);
    assert_eq!(t.len(), 256);
    assert_eq!(t[0], [0x44, 0x01, 0x54, 255]);
    assert_eq!(t[255], [0xfd, 0xe7, 0x25, 255]);
}

#[test]
fn bgra_swaps_red_and_blue() {
    let rgba = get_colormap(16, TextureFormat::Rgba8Unorm);
    let bgra = get_colormap(16, TextureFormat::Bgra8Unorm);
    for (a, b) in rgba.iter().zip(bgra.iter()) {
        assert_eq!([a[2], a[1], a[0], a[3]], *b);
    }
}

#[test]
fn empty_table_samples_nothing() {
    assert!(get_colormap(0, TextureFormat::Rgba8Unorm).is_empty());
    let two = get_colormap(2, TextureFormat::Rgba8Unorm);
    assert_eq!(two.len(), 2);
    assert_eq!(two[0], two[1]);
}

#[test]
fn table_from_samples_orders_channels() {
    let samples = vec![(1u8, 2u8, 3u8), (4, 5, 6)];
    assert_eq!(
        colormap_from_samples(&samples, TextureFormat::Rgba8Unorm),
        vec![[1, 2, 3, 255], [4, 5, 6, 255]]
    );
    assert_eq!(
        colormap_from_samples(&samples, TextureFormat::Bgra8Unorm),
        vec![[3, 2, 1, 255], [6, 5, 4, 255]]
    );
}
