//! Texture roles in the material model, target texture formats, and the
//! encoder options that are derived from them.

use crate::SquishError;
use vstd::prelude::*;

verus! {

/// Which part of the material model a texture serves.
#[derive(Clone, Copy, PartialEq, Eq, Structural, Debug)]
pub enum TextureType {
    BaseColor,
    Normal,
    MetallicRoughnessOcclusion,
    Emissive,
}

impl TextureType {
    /// Roles whose pixel data carries sRGB-encoded color.
    pub open spec fn is_srgb_spec(&self) -> bool {
        match *self {
            TextureType::BaseColor => true,
            TextureType::Emissive => true,
            _ => false,
        }
    }

    /// Whether this role's color transfer is sRGB: true for base color and
    /// emissive textures, false otherwise.
    pub fn is_srgb(&self) -> (r: bool)
        ensures
            r == self.is_srgb_spec(),
    {
        matches!(self, TextureType::BaseColor | TextureType::Emissive)
    }

    /// The block granularity this role asks of a block-compressed target:
    /// finer for color data, coarser otherwise.
    pub open spec fn block_size_spec(&self) -> Seq<char> {
        if self.is_srgb_spec() {
            "6x6"@
        } else {
            "4x4"@
        }
    }

    /// The encoder's block-size argument for this role.
    pub fn block_size(&self) -> (r: &'static str)
        ensures
            r@ == self.block_size_spec(),
    {
        match self {
            TextureType::BaseColor | TextureType::Emissive => "6x6",
            _ => "4x4",
        }
    }
}

/// The target texture format of a run.
#[derive(Clone, Copy, PartialEq, Eq, Structural, Debug)]
pub enum TextureFormat {
    Rgba8,
    Astc,
}

impl TextureFormat {
    /// Parses the format selector: "rgba8" or "astc", anything else is
    /// rejected.
    pub fn from_str(s: &str) -> (r: Result<TextureFormat, SquishError>)
        ensures
            s@ == "rgba8"@ ==> (r matches Ok(f) && f == TextureFormat::Rgba8),
            s@ == "astc"@ ==> (r matches Ok(f) && f == TextureFormat::Astc),
            s@ != "rgba8"@ && s@ != "astc"@ ==> (r matches Err(e) && e
                == SquishError::UnknownTextureFormat),
    {
        proof {
            reveal_strlit("rgba8");
            reveal_strlit("astc");
            assert("rgba8"@.len() == 5);
            assert("astc"@.len() == 4);
            assert("rgba8"@ != "astc"@);
        }
        let given = String::from_str(s);
        if given == String::from_str("rgba8") {
            Ok(TextureFormat::Rgba8)
        } else if given == String::from_str("astc") {
            Ok(TextureFormat::Astc)
        } else {
            Err(SquishError::UnknownTextureFormat)
        }
    }

    /// The byte that stands for this format in the cache fingerprint.
    pub open spec fn code_spec(&self) -> u8 {
        match *self {
            TextureFormat::Rgba8 => 0,
            TextureFormat::Astc => 1,
        }
    }

    /// The fingerprint byte of this format.
    pub fn code(&self) -> (r: u8)
        ensures
            r == self.code_spec(),
    {
        match self {
            TextureFormat::Rgba8 => 0,
            TextureFormat::Astc => 1,
        }
    }
}

/// The option set handed to the external encoder for one image, derived
/// deterministically from the texture's role and the run configuration.
pub struct EncodeOptions {
    /// Target format of the encode.
    pub format: TextureFormat,
    /// Color transfer assigned to the output: sRGB or linear.
    pub srgb: bool,
    /// Whether normal-map normalization is requested.
    pub normalize: bool,
    /// Whether a full mip chain is requested; always on.
    pub mipmaps: bool,
    /// Whether entropy supercompression is requested.
    pub supercompression: bool,
    /// Block granularity for block-compressed targets.
    pub block_size: String,
}

impl EncodeOptions {
    /// Role-correct options: color transfer is sRGB exactly for base color
    /// and emissive roles, normalization is requested exactly for the
    /// normal role, the block size follows the role, mip generation is
    /// always requested, and supercompression follows the run
    /// configuration.
    pub fn derive_options(role: &TextureType, format: TextureFormat, supercompression: bool) -> (r:
        EncodeOptions)
        ensures
            r.format == format,
            r.srgb == role.is_srgb_spec(),
            r.normalize == (*role == TextureType::Normal),
            r.mipmaps,
            r.supercompression == supercompression,
            r.block_size@ == role.block_size_spec(),
    {
        EncodeOptions {
            format,
            srgb: role.is_srgb(),
            normalize: matches!(role, TextureType::Normal),
            mipmaps: true,
            supercompression,
            block_size: String::from_str(role.block_size()),
        }
    }
}

/// The flag list handed to the external encoder for one option set, before
/// the output and input arguments: the modern container version and mip
/// generation always, supercompression when requested, the target format
/// with its block size and quality for the block-compressed target,
/// normalization for normal maps, and last the assigned color transfer.
pub open spec fn encoder_args_spec(o: EncodeOptions) -> Seq<Seq<char>> {
    seq!["--t2"@, "--genmipmap"@] + (if o.supercompression {
        seq!["--zcmp"@, "20"@]
    } else {
        Seq::empty()
    }) + (match o.format {
        TextureFormat::Rgba8 => seq!["--target_type"@, "RGBA"@],
        TextureFormat::Astc => seq![
            "--encode"@,
            "astc"@,
            "--astc_blk_d"@,
            o.block_size@,
            "--astc_quality"@,
            "thorough"@,
        ],
    }) + (if o.normalize {
        seq!["--normal_mode"@, "--normalize"@]
    } else {
        Seq::empty()
    }) + seq![
        "--assign_oetf"@,
        if o.srgb {
            "srgb"@
        } else {
            "linear"@
        },
    ]
}

/// Builds the encoder's flag list for one option set. The caller appends
/// the output and input arguments.
pub fn encoder_args(o: &EncodeOptions) -> (r: Vec<String>)
    ensures
        r@.map_values(|s: String| s@) == encoder_args_spec(*o),
{
    let mut args: Vec<String> = Vec::new();
    args.push(String::from_str("--t2"));
    args.push(String::from_str("--genmipmap"));
    if o.supercompression {
        args.push(String::from_str("--zcmp"));
        args.push(String::from_str("20"));
    }
    match o.format {
        TextureFormat::Rgba8 => {
            args.push(String::from_str("--target_type"));
            args.push(String::from_str("RGBA"));
        },
        TextureFormat::Astc => {
            args.push(String::from_str("--encode"));
            args.push(String::from_str("astc"));
            args.push(String::from_str("--astc_blk_d"));
            args.push(o.block_size.clone());
            args.push(String::from_str("--astc_quality"));
            args.push(String::from_str("thorough"));
        },
    }
    if o.normalize {
        args.push(String::from_str("--normal_mode"));
        args.push(String::from_str("--normalize"));
    }
    args.push(String::from_str("--assign_oetf"));
    if o.srgb {
        args.push(String::from_str("srgb"));
    } else {
        args.push(String::from_str("linear"));
    }
    proof {
        assert(args@.map_values(|s: String| s@) =~= encoder_args_spec(*o));
    }
    args
}

/// Role-correct options reach the encoder: the flag list holds the
/// normalization flag exactly when the options ask for normalization, and
/// it ends with the matching color transfer.
pub proof fn lemma_encoder_args_role_flags(o: EncodeOptions)
    requires
        o.block_size@ == "6x6"@ || o.block_size@ == "4x4"@,
    ensures
        (exists|k: int|
            0 <= k < encoder_args_spec(o).len() && encoder_args_spec(o)[k] == "--normalize"@)
            <==> o.normalize,
        encoder_args_spec(o).last() == if o.srgb {
            "srgb"@
        } else {
            "linear"@
        },
{
    reveal_strlit("--t2");
    reveal_strlit("--genmipmap");
    reveal_strlit("--zcmp");
    reveal_strlit("20");
    reveal_strlit("--target_type");
    reveal_strlit("RGBA");
    reveal_strlit("--encode");
    reveal_strlit("astc");
    reveal_strlit("--astc_blk_d");
    reveal_strlit("--astc_quality");
    reveal_strlit("thorough");
    reveal_strlit("--normal_mode");
    reveal_strlit("--normalize");
    reveal_strlit("--assign_oetf");
    reveal_strlit("srgb");
    reveal_strlit("linear");
    reveal_strlit("6x6");
    reveal_strlit("4x4");
    let args = encoder_args_spec(o);
    let sc: int = if o.supercompression {
        2
    } else {
        0
    };
    let fmt: int = match o.format {
        TextureFormat::Rgba8 => 2,
        TextureFormat::Astc => 6,
    };
    if o.normalize {
        assert(args[2 + sc + fmt + 1] == "--normalize"@);
    } else {
        let ct = if o.srgb {
            "srgb"@
        } else {
            "linear"@
        };
        assert("--normalize"@.len() == 11);
        assert("--t2"@.len() == 4);
        assert("--genmipmap"@[2] != "--normalize"@[2]);
        assert("--genmipmap"@ != "--normalize"@);
        assert("--zcmp"@.len() == 6);
        assert("20"@.len() == 2);
        assert("--target_type"@.len() == 13);
        assert("RGBA"@.len() == 4);
        assert("--encode"@.len() == 8);
        assert("astc"@.len() == 4);
        assert("--astc_blk_d"@.len() == 12);
        assert("--astc_quality"@.len() == 14);
        assert("thorough"@.len() == 8);
        assert("--assign_oetf"@.len() == 13);
        assert(ct.len() != 11);
        assert(o.block_size@.len() == 3);
        match (o.supercompression, o.format) {
            (false, TextureFormat::Rgba8) => {
                assert(args =~= seq![
                    "--t2"@,
                    "--genmipmap"@,
                    "--target_type"@,
                    "RGBA"@,
                    "--assign_oetf"@,
                    ct,
                ]);
                assert forall|k: int| 0 <= k < args.len() implies args[k] != "--normalize"@ by {
                    if k == 0 {
                    } else if k == 1 {
                    } else if k == 2 {
                    } else if k == 3 {
                    } else if k == 4 {
                    } else {
                        assert(k == 5);
                    }
                }
            },
            (true, TextureFormat::Rgba8) => {
                assert(args =~= seq![
                    "--t2"@,
                    "--genmipmap"@,
                    "--zcmp"@,
                    "20"@,
                    "--target_type"@,
                    "RGBA"@,
                    "--assign_oetf"@,
                    ct,
                ]);
                assert forall|k: int| 0 <= k < args.len() implies args[k] != "--normalize"@ by {
                    if k == 0 {
                    } else if k == 1 {
                    } else if k == 2 {
                    } else if k == 3 {
                    } else if k == 4 {
                    } else if k == 5 {
                    } else if k == 6 {
                    } else {
                        assert(k == 7);
                    }
                }
            },
            (false, TextureFormat::Astc) => {
                assert(args =~= seq![
                    "--t2"@,
                    "--genmipmap"@,
                    "--encode"@,
                    "astc"@,
                    "--astc_blk_d"@,
                    o.block_size@,
                    "--astc_quality"@,
                    "thorough"@,
                    "--assign_oetf"@,
                    ct,
                ]);
                assert forall|k: int| 0 <= k < args.len() implies args[k] != "--normalize"@ by {
                    if k == 0 {
                    } else if k == 1 {
                    } else if k == 2 {
                    } else if k == 3 {
                    } else if k == 4 {
                    } else if k == 5 {
                    } else if k == 6 {
                    } else if k == 7 {
                    } else if k == 8 {
                    } else {
                        assert(k == 9);
                    }
                }
            },
            (true, TextureFormat::Astc) => {
                assert(args =~= seq![
                    "--t2"@,
                    "--genmipmap"@,
                    "--zcmp"@,
                    "20"@,
                    "--encode"@,
                    "astc"@,
                    "--astc_blk_d"@,
                    o.block_size@,
                    "--astc_quality"@,
                    "thorough"@,
                    "--assign_oetf"@,
                    ct,
                ]);
                assert forall|k: int| 0 <= k < args.len() implies args[k] != "--normalize"@ by {
                    if k == 0 {
                    } else if k == 1 {
                    } else if k == 2 {
                    } else if k == 3 {
                    } else if k == 4 {
                    } else if k == 5 {
                    } else if k == 6 {
                    } else if k == 7 {
                    } else if k == 8 {
                    } else if k == 9 {
                    } else if k == 10 {
                    } else {
                        assert(k == 11);
                    }
                }
            },
        }
    }
}


} // verus!
