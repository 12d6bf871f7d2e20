use squisher::texture::{encoder_args, EncodeOptions, TextureFormat, TextureType};

#[test]
fn srgb_roles() {
    assert!(TextureType::BaseColor.is_srgb());
    assert!(TextureType::Emissive.is_srgb());
    assert!(!TextureType::Normal.is_srgb());
    assert!(!TextureType::MetallicRoughnessOcclusion.is_srgb());
}

#[test]
fn block_sizes() {
    assert_eq!(TextureType::BaseColor.block_size(), "6x6");
    assert_eq!(TextureType::Emissive.block_size(), "6x6");
    assert_eq!(TextureType::Normal.block_size(), "4x4");
    assert_eq!(TextureType::MetallicRoughnessOcclusion.block_size(), "4x4");
}

#[test]
fn format_from_str() {
    assert_eq!(TextureFormat::from_str("rgba8").unwrap(), TextureFormat::Rgba8);
    assert_eq!(TextureFormat::from_str("astc").unwrap(), TextureFormat::Astc);
    assert!(TextureFormat::from_str("bc7").is_err());
    assert!(TextureFormat::from_str("").is_err());
}

#[test]
fn role_correct_options() {
    // A Normal-role image always receives the normalization flag and is
    // tagged linear.
    let normal = EncodeOptions::derive_options(&TextureType::Normal, TextureFormat::Astc, true);
    assert!(normal.normalize);
    assert!(!normal.srgb);
    assert_eq!(normal.block_size, "4x4");
    assert!(normal.mipmaps);
    assert!(normal.supercompression);

    // BaseColor and Emissive images are always tagged sRGB.
    let base = EncodeOptions::derive_options(&TextureType::BaseColor, TextureFormat::Astc, false);
    assert!(base.srgb);
    assert!(!base.normalize);
    assert_eq!(base.block_size, "6x6");
    assert!(!base.supercompression);

    let emissive = EncodeOptions::derive_options(&TextureType::Emissive, TextureFormat::Rgba8, true);
    assert!(emissive.srgb);
    assert!(!emissive.normalize);

    // All others are tagged linear.
    let mro = EncodeOptions::derive_options(
        &TextureType::MetallicRoughnessOcclusion,
        TextureFormat::Rgba8,
        true,
    );
    assert!(!mro.srgb);
    assert!(!mro.normalize);
    assert_eq!(mro.format, TextureFormat::Rgba8);
}

#[test]
fn encoder_flag_list() {
    let normal = EncodeOptions::derive_options(&TextureType::Normal, TextureFormat::Astc, true);
    assert_eq!(
        encoder_args(&normal),
        vec![
            "--t2",
            "--genmipmap",
            "--zcmp",
            "20",
            "--encode",
            "astc",
            "--astc_blk_d",
            "4x4",
            "--astc_quality",
            "thorough",
            "--normal_mode",
            "--normalize",
            "--assign_oetf",
            "linear",
        ]
    );

    let base = EncodeOptions::derive_options(&TextureType::BaseColor, TextureFormat::Rgba8, false);
    assert_eq!(
        encoder_args(&base),
        vec!["--t2", "--genmipmap", "--target_type", "RGBA", "--assign_oetf", "srgb"]
    );
}
