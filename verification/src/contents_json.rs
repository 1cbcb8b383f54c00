//! The asset-catalog `Contents.json` data model and its canonical
//! pretty-printed serialization, shared by the iOS and macOS outputs.
//!
//! The document shape is `{ images: [...], info: {version, author},
//! properties? }`; object keys appear in declaration order, absent
//! optional fields are omitted entirely, and the text uses two-space
//! indentation.

use vstd::prelude::*;
use vstd::string::StringExecFns;

use crate::jsonfmt::{push_jstr, spec_jstr};
use crate::textfmt::{push_dec, spec_dec};

verus! {

/// Root structure of a `Contents.json` file.
pub struct ContentsFile {
    /// Image entries for the different scales, sizes and device types.
    pub images: Vec<ImageEntry>,
    /// Versioning and authorship information.
    pub info: Info,
    /// Optional catalog-wide properties.
    pub properties: Option<Properties>,
}

/// One image entry within an asset catalog. Every field is optional and
/// serialized only when present, in declaration order.
pub struct ImageEntry {
    /// The image file name.
    pub filename: Option<String>,
    /// The device class ("iphone", "ipad", "mac", "ios-marketing", ...).
    pub idiom: Option<String>,
    /// The scale factor ("1x", "2x", "3x").
    pub scale: Option<String>,
    /// The nominal size in points ("29x29", "60x60").
    pub size: Option<String>,
    /// The expected pixel size, used for validation.
    pub expected_size: Option<String>,
    /// The icon role ("notificationCenter", "appLauncher", ...).
    pub role: Option<String>,
    /// Device-specific variant ("38mm", "42mm", ...).
    pub subtype: Option<String>,
    /// Target folder for organized icon generation.
    pub folder: Option<String>,
    /// Graphics feature set requirement; key "graphics-feature-set".
    pub graphics_feature_set: Option<String>,
    /// Memory requirement ("1GB", "2GB").
    pub memory: Option<String>,
    /// Colour space; key "color-space".
    pub color_space: Option<String>,
    /// Display gamut; key "display-gamut".
    pub display_gamut: Option<String>,
    /// Compression type; key "compression-type".
    pub compression_type: Option<String>,
    /// Language direction; key "language-direction".
    pub language_direction: Option<String>,
    /// Apple Watch screen width; key "screen-width".
    pub screen_width: Option<String>,
    /// Template rendering intent; key "template-rendering-intent".
    pub template_rendering_intent: Option<String>,
    /// Width size class; key "width-class".
    pub width_class: Option<String>,
    /// Height size class; key "height-class".
    pub height_class: Option<String>,
}

/// Versioning and authorship information for the asset catalog.
pub struct Info {
    /// The catalog format version; always 1.
    pub version: u8,
    /// The tool that authored the catalog.
    pub author: String,
}

/// Optional catalog-wide properties.
pub struct Properties {
    /// On-demand resource tags; key "on-demand-resource-tags".
    pub on_demand_resource_tags: Option<Vec<String>>,
    /// Vector preservation for PDFs; key "preserves-vector-representation".
    pub preserves_vector_representation: Option<bool>,
}

/// Zero or one (key, string value) pairs for an optional entry field.
pub open spec fn spec_opt_field(name: Seq<char>, v: Option<String>) -> Seq<(Seq<char>, Seq<char>)> {
    match v {
        Option::Some(s) => seq![(name, s@)],
        Option::None => Seq::empty(),
    }
}

/// The present (key, string value) pairs of an entry, in declaration
/// order.
pub open spec fn spec_entry_fields(e: ImageEntry) -> Seq<(Seq<char>, Seq<char>)> {
    spec_opt_field("filename"@, e.filename) + spec_opt_field("idiom"@, e.idiom) + spec_opt_field(
        "scale"@,
        e.scale,
    ) + spec_opt_field("size"@, e.size) + spec_opt_field("expected_size"@, e.expected_size)
        + spec_opt_field("role"@, e.role) + spec_opt_field("subtype"@, e.subtype) + spec_opt_field(
        "folder"@,
        e.folder,
    ) + spec_opt_field("graphics-feature-set"@, e.graphics_feature_set) + spec_opt_field(
        "memory"@,
        e.memory,
    ) + spec_opt_field("color-space"@, e.color_space) + spec_opt_field(
        "display-gamut"@,
        e.display_gamut,
    ) + spec_opt_field("compression-type"@, e.compression_type) + spec_opt_field(
        "language-direction"@,
        e.language_direction,
    ) + spec_opt_field("screen-width"@, e.screen_width) + spec_opt_field(
        "template-rendering-intent"@,
        e.template_rendering_intent,
    ) + spec_opt_field("width-class"@, e.width_class) + spec_opt_field(
        "height-class"@,
        e.height_class,
    )
}

/// One `"key": "value"` line of an entry, at the entry-field indent.
pub open spec fn spec_field_text(f: (Seq<char>, Seq<char>)) -> Seq<char> {
    "      "@ + spec_jstr(f.0) + ": "@ + spec_jstr(f.1)
}

/// Entry field lines joined with `,\n`.
pub open spec fn spec_join_fields(fs: Seq<(Seq<char>, Seq<char>)>) -> Seq<char>
    decreases fs.len(),
{
    if fs.len() == 0 {
        Seq::empty()
    } else if fs.len() == 1 {
        spec_field_text(fs[0])
    } else {
        spec_join_fields(fs.drop_last()) + ",\n"@ + spec_field_text(fs.last())
    }
}

/// The serialized object for one entry, as it stands inside the images
/// array.
pub open spec fn spec_entry_json(e: ImageEntry) -> Seq<char> {
    let fs = spec_entry_fields(e);
    if fs.len() == 0 {
        "{}"@
    } else {
        "{\n"@ + spec_join_fields(fs) + "\n    }"@
    }
}

/// Entry objects joined with `,\n`, each on its own indented line.
pub open spec fn spec_join_entries(es: Seq<ImageEntry>) -> Seq<char>
    decreases es.len(),
{
    if es.len() == 0 {
        Seq::empty()
    } else if es.len() == 1 {
        "    "@ + spec_entry_json(es[0])
    } else {
        spec_join_entries(es.drop_last()) + ",\n    "@ + spec_entry_json(es.last())
    }
}

/// The serialized images array.
pub open spec fn spec_images_json(es: Seq<ImageEntry>) -> Seq<char> {
    if es.len() == 0 {
        "[]"@
    } else {
        "[\n"@ + spec_join_entries(es) + "\n  ]"@
    }
}

/// Resource tag strings joined with `,\n`, each on its own indented line.
pub open spec fn spec_join_tags(ts: Seq<String>) -> Seq<char>
    decreases ts.len(),
{
    if ts.len() == 0 {
        Seq::empty()
    } else if ts.len() == 1 {
        "      "@ + spec_jstr(ts[0]@)
    } else {
        spec_join_tags(ts.drop_last()) + ",\n      "@ + spec_jstr(ts.last()@)
    }
}

/// The serialized on-demand resource tag array.
pub open spec fn spec_tags_json(ts: Seq<String>) -> Seq<char> {
    if ts.len() == 0 {
        "[]"@
    } else {
        "[\n"@ + spec_join_tags(ts) + "\n    ]"@
    }
}

/// The serialized properties object.
pub open spec fn spec_props_json(p: Properties) -> Seq<char> {
    let tag_line = match p.on_demand_resource_tags {
        Option::Some(ts) => seq![("    \"on-demand-resource-tags\": "@ + spec_tags_json(ts@))],
        Option::None => Seq::<Seq<char>>::empty(),
    };
    let pv_line = match p.preserves_vector_representation {
        Option::Some(b) => seq![
            (
            "    \"preserves-vector-representation\": "@ + if b {
                "true"@
            } else {
                "false"@
            }
            ),
        ],
        Option::None => Seq::<Seq<char>>::empty(),
    };
    let lines = tag_line + pv_line;
    if lines.len() == 0 {
        "{}"@
    } else if lines.len() == 1 {
        "{\n"@ + lines[0] + "\n  }"@
    } else {
        "{\n"@ + lines[0] + ",\n"@ + lines[1] + "\n  }"@
    }
}

/// The complete pretty-printed `Contents.json` document.
pub open spec fn spec_contents_json(cf: ContentsFile) -> Seq<char> {
    "{\n  \"images\": "@ + spec_images_json(cf.images@) + ",\n  \"info\": {\n    \"version\": "@
        + spec_dec(cf.info.version as int) + ",\n    \"author\": "@ + spec_jstr(cf.info.author@)
        + "\n  }"@ + (match cf.properties {
        Option::Some(p) => ",\n  \"properties\": "@ + spec_props_json(p),
        Option::None => Seq::<char>::empty(),
    }) + "\n}"@
}

/// Append one optional entry field; returns whether the output is still
/// waiting for its first field.
fn push_opt_field(out: &mut String, first: bool, name: &str, v: &Option<String>) -> (nf: bool)
    ensures
        final(out)@ == old(out)@ + (match v {
            Option::Some(s) => (if first {
                Seq::<char>::empty()
            } else {
                ",\n"@
            }) + spec_field_text((name@, s@)),
            Option::None => Seq::<char>::empty(),
        }),
        nf == (first && v is None),
{
    match v {
        Option::Some(s) => {
            if !first {
                out.append(",\n");
            }
            out.append("      ");
            push_jstr(out, name);
            out.append(": ");
            push_jstr(out, s.as_str());
            proof {
                assert(final(out)@ =~= old(out)@ + (if first {
                    Seq::<char>::empty()
                } else {
                    ",\n"@
                }) + spec_field_text((name@, s@)));
            }
            false
        },
        Option::None => first,
    }
}

/// Appending one more field extends the joined field list by a separator
/// and the field's line.
proof fn lemma_join_fields_snoc(fs: Seq<(Seq<char>, Seq<char>)>, f: (Seq<char>, Seq<char>))
    ensures
        spec_join_fields(fs.push(f)) == spec_join_fields(fs) + (if fs.len() == 0 {
            Seq::<char>::empty()
        } else {
            ",\n"@
        }) + spec_field_text(f),
{
    let all = fs.push(f);
    assert(all.drop_last() =~= fs);
    assert(all.last() == f);
    if fs.len() == 0 {
        assert(spec_join_fields(all) =~= spec_join_fields(fs) + Seq::<char>::empty()
            + spec_field_text(f));
    } else {
        assert(spec_join_fields(all) =~= spec_join_fields(fs) + ",\n"@ + spec_field_text(f));
    }
}

/// Append the serialized object for one entry.
#[verifier::rlimit(100)]
pub fn push_entry_json(out: &mut String, e: &ImageEntry)
    ensures
        final(out)@ == old(out)@ + spec_entry_json(*e),
{
    let any = e.filename.is_some() || e.idiom.is_some() || e.scale.is_some() || e.size.is_some()
        || e.expected_size.is_some() || e.role.is_some() || e.subtype.is_some()
        || e.folder.is_some() || e.graphics_feature_set.is_some() || e.memory.is_some()
        || e.color_space.is_some() || e.display_gamut.is_some() || e.compression_type.is_some()
        || e.language_direction.is_some() || e.screen_width.is_some()
        || e.template_rendering_intent.is_some() || e.width_class.is_some()
        || e.height_class.is_some();
    if !any {
        out.append("{}");
        proof {
            assert(spec_entry_fields(*e).len() == 0);
            assert(final(out)@ =~= old(out)@ + spec_entry_json(*e));
        }
        return ;
    }
    out.append("{\n");
    let ghost start = out@;
    let ghost mut fs: Seq<(Seq<char>, Seq<char>)> = Seq::empty();
    let mut first = true;
    proof {
        assert(out@ =~= start + spec_join_fields(fs));
    }
    let r = push_field_step(out, first, "filename", &e.filename, Ghost(fs), Ghost(start));
    first = r.0;
    proof {
        fs = r.1@;
    }
    let r = push_field_step(out, first, "idiom", &e.idiom, Ghost(fs), Ghost(start));
    first = r.0;
    proof {
        fs = r.1@;
    }
    let r = push_field_step(out, first, "scale", &e.scale, Ghost(fs), Ghost(start));
    first = r.0;
    proof {
        fs = r.1@;
    }
    let r = push_field_step(out, first, "size", &e.size, Ghost(fs), Ghost(start));
    first = r.0;
    proof {
        fs = r.1@;
    }
    let r = push_field_step(
        out,
        first,
        "expected_size",
        &e.expected_size,
        Ghost(fs),
        Ghost(start),
    );
    first = r.0;
    proof {
        fs = r.1@;
    }
    let r = push_field_step(out, first, "role", &e.role, Ghost(fs), Ghost(start));
    first = r.0;
    proof {
        fs = r.1@;
    }
    let r = push_field_step(out, first, "subtype", &e.subtype, Ghost(fs), Ghost(start));
    first = r.0;
    proof {
        fs = r.1@;
    }
    let r = push_field_step(out, first, "folder", &e.folder, Ghost(fs), Ghost(start));
    first = r.0;
    proof {
        fs = r.1@;
    }
    let r = push_field_step(
        out,
        first,
        "graphics-feature-set",
        &e.graphics_feature_set,
        Ghost(fs),
        Ghost(start),
    );
    first = r.0;
    proof {
        fs = r.1@;
    }
    let r = push_field_step(out, first, "memory", &e.memory, Ghost(fs), Ghost(start));
    first = r.0;
    proof {
        fs = r.1@;
    }
    let r = push_field_step(
        out,
        first,
        "color-space",
        &e.color_space,
        Ghost(fs),
        Ghost(start),
    );
    first = r.0;
    proof {
        fs = r.1@;
    }
    let r = push_field_step(
        out,
        first,
        "display-gamut",
        &e.display_gamut,
        Ghost(fs),
        Ghost(start),
    );
    first = r.0;
    proof {
        fs = r.1@;
    }
    let r = push_field_step(
        out,
        first,
        "compression-type",
        &e.compression_type,
        Ghost(fs),
        Ghost(start),
    );
    first = r.0;
    proof {
        fs = r.1@;
    }
    let r = push_field_step(
        out,
        first,
        "language-direction",
        &e.language_direction,
        Ghost(fs),
        Ghost(start),
    );
    first = r.0;
    proof {
        fs = r.1@;
    }
    let r = push_field_step(
        out,
        first,
        "screen-width",
        &e.screen_width,
        Ghost(fs),
        Ghost(start),
    );
    first = r.0;
    proof {
        fs = r.1@;
    }
    let r = push_field_step(
        out,
        first,
        "template-rendering-intent",
        &e.template_rendering_intent,
        Ghost(fs),
        Ghost(start),
    );
    first = r.0;
    proof {
        fs = r.1@;
    }
    let r = push_field_step(
        out,
        first,
        "width-class",
        &e.width_class,
        Ghost(fs),
        Ghost(start),
    );
    first = r.0;
    proof {
        fs = r.1@;
    }
    let r = push_field_step(
        out,
        first,
        "height-class",
        &e.height_class,
        Ghost(fs),
        Ghost(start),
    );
    first = r.0;
    proof {
        fs = r.1@;
    }
    proof {
        assert(fs =~= spec_entry_fields(*e));
    }
    out.append("\n    }");
    proof {
        assert(spec_entry_fields(*e).len() > 0);
        assert(final(out)@ =~= old(out)@ + spec_entry_json(*e));
    }
}

/// One field-emission step of `push_entry_json`, keeping the ghost field
/// list and the output text in lock step.
fn push_field_step(
    out: &mut String,
    first: bool,
    name: &str,
    v: &Option<String>,
    Ghost(fs): Ghost<Seq<(Seq<char>, Seq<char>)>>,
    Ghost(start): Ghost<Seq<char>>,
) -> (r: (bool, Ghost<Seq<(Seq<char>, Seq<char>)>>))
    requires
        old(out)@ == start + spec_join_fields(fs),
        first == (fs.len() == 0),
    ensures
        r.1@ == fs + spec_opt_field(name@, *v),
        final(out)@ == start + spec_join_fields(r.1@),
        r.0 == (r.1@.len() == 0),
{
    let nf = push_opt_field(out, first, name, v);
    let ghost nfs = fs + spec_opt_field(name@, *v);
    proof {
        match v {
            Option::Some(s) => {
                assert(nfs =~= fs.push((name@, s@)));
                lemma_join_fields_snoc(fs, (name@, s@));
                assert(final(out)@ =~= start + spec_join_fields(nfs));
            },
            Option::None => {
                assert(nfs =~= fs);
            },
        }
    }
    (nf, Ghost(nfs))
}

impl ContentsFile {
    /// A new catalog with the given author, an empty image list, the
    /// format version 1 and no properties.
    pub fn new(author: String) -> (cf: Self)
        ensures
            cf.images@.len() == 0,
            cf.info.version == 1,
            cf.info.author == author,
            cf.properties is None,
    {
        ContentsFile {
            images: Vec::new(),
            info: Info { version: 1, author },
            properties: None,
        }
    }

    /// Append one image entry.
    pub fn add_image(&mut self, image: ImageEntry)
        ensures
            final(self).images@ == old(self).images@.push(image),
            final(self).info == old(self).info,
            final(self).properties == old(self).properties,
    {
        self.images.push(image);
    }

    /// Set the catalog-wide properties.
    pub fn set_properties(&mut self, properties: Properties)
        ensures
            final(self).images@ == old(self).images@,
            final(self).info == old(self).info,
            final(self).properties == Some(properties),
    {
        self.properties = Some(properties);
    }

    /// Serialize the catalog as its canonical pretty-printed document.
    pub fn to_json(&self) -> (out: String)
        ensures
            out@ == spec_contents_json(*self),
    {
        let mut out = String::new();
        out.append("{\n  \"images\": ");
        if self.images.len() == 0 {
            out.append("[]");
        } else {
            out.append("[\n");
            let ghost mark = out@;
            let n = self.images.len();
            let mut i: usize = 0;
            while i < n
                invariant
                    0 < i <= n || i == 0,
                    n == self.images@.len(),
                    out@ == mark + spec_join_entries(self.images@.subrange(0, i as int)),
                decreases n - i,
            {
                if i > 0 {
                    out.append(",\n    ");
                } else {
                    out.append("    ");
                }
                push_entry_json(&mut out, &self.images[i]);
                proof {
                    let pre = self.images@.subrange(0, i as int);
                    let post = self.images@.subrange(0, i + 1int);
                    assert(post.drop_last() =~= pre);
                    assert(post.last() == self.images@[i as int]);
                    assert(out@ =~= mark + spec_join_entries(post));
                }
                i = i + 1;
            }
            proof {
                assert(self.images@.subrange(0, self.images@.len() as int) =~= self.images@);
            }
            out.append("\n  ]");
        }
        out.append(",\n  \"info\": {\n    \"version\": ");
        push_dec(&mut out, self.info.version as u32);
        out.append(",\n    \"author\": ");
        push_jstr(&mut out, self.info.author.as_str());
        out.append("\n  }");
        match &self.properties {
            Option::Some(p) => {
                out.append(",\n  \"properties\": ");
                push_props_json(&mut out, p);
            },
            Option::None => {},
        }
        out.append("\n}");
        proof {
            assert(out@ =~= spec_contents_json(*self));
        }
        out
    }
}

/// Append the serialized properties object.
fn push_props_json(out: &mut String, p: &Properties)
    ensures
        final(out)@ == old(out)@ + spec_props_json(*p),
{
    let has_tags = p.on_demand_resource_tags.is_some();
    let has_pv = p.preserves_vector_representation.is_some();
    if !has_tags && !has_pv {
        out.append("{}");
        proof {
            assert(final(out)@ =~= old(out)@ + spec_props_json(*p));
        }
        return ;
    }
    out.append("{\n");
    match &p.on_demand_resource_tags {
        Option::Some(ts) => {
            out.append("    \"on-demand-resource-tags\": ");
            if ts.len() == 0 {
                out.append("[]");
            } else {
                out.append("[\n");
                let ghost mark = out@;
                let n = ts.len();
                let mut i: usize = 0;
                while i < n
                    invariant
                        i <= n,
                        n == ts@.len(),
                        out@ == mark + spec_join_tags(ts@.subrange(0, i as int)),
                    decreases n - i,
                {
                    if i > 0 {
                        out.append(",\n      ");
                    } else {
                        out.append("      ");
                    }
                    push_jstr(out, ts[i].as_str());
                    proof {
                        let pre = ts@.subrange(0, i as int);
                        let post = ts@.subrange(0, i + 1int);
                        assert(post.drop_last() =~= pre);
                        assert(post.last() == ts@[i as int]);
                        assert(out@ =~= mark + spec_join_tags(post));
                    }
                    i = i + 1;
                }
                proof {
                    assert(ts@.subrange(0, ts@.len() as int) =~= ts@);
                }
                out.append("\n    ]");
            }
            if has_pv {
                out.append(",\n");
            }
        },
        Option::None => {},
    }
    match &p.preserves_vector_representation {
        Option::Some(b) => {
            out.append("    \"preserves-vector-representation\": ");
            if *b {
                out.append("true");
            } else {
                out.append("false");
            }
        },
        Option::None => {},
    }
    out.append("\n  }");
    proof {
        assert(final(out)@ =~= old(out)@ + spec_props_json(*p));
    }
}

impl ImageEntry {
    /// A new entry with the three basic attributes and nothing else.
    pub fn new(filename: String, idiom: String, scale: String) -> (e: Self)
        ensures
            e.filename == Some(filename),
            e.idiom == Some(idiom),
            e.scale == Some(scale),
            e.size is None,
            e.expected_size is None,
            e.role is None,
            e.subtype is None,
            e.folder is None,
            e.graphics_feature_set is None,
            e.memory is None,
            e.color_space is None,
            e.display_gamut is None,
            e.compression_type is None,
            e.language_direction is None,
            e.screen_width is None,
            e.template_rendering_intent is None,
            e.width_class is None,
            e.height_class is None,
    {
        ImageEntry {
            filename: Some(filename),
            idiom: Some(idiom),
            scale: Some(scale),
            size: None,
            expected_size: None,
            role: None,
            subtype: None,
            folder: None,
            graphics_feature_set: None,
            memory: None,
            color_space: None,
            display_gamut: None,
            compression_type: None,
            language_direction: None,
            screen_width: None,
            template_rendering_intent: None,
            width_class: None,
            height_class: None,
        }
    }

    /// An app-icon entry: like `new` but with the nominal size recorded
    /// both as the size and as the expected size, and an optional role.
    pub fn new_app_icon(
        filename: String,
        idiom: String,
        size: String,
        scale: String,
        role: Option<String>,
    ) -> (e: Self)
        ensures
            e.filename == Some(filename),
            e.idiom == Some(idiom),
            e.scale == Some(scale),
            e.size == Some(size),
            e.expected_size == Some(size),
            e.role == role,
            e.subtype is None,
            e.folder is None,
            e.graphics_feature_set is None,
            e.memory is None,
            e.color_space is None,
            e.display_gamut is None,
            e.compression_type is None,
            e.language_direction is None,
            e.screen_width is None,
            e.template_rendering_intent is None,
            e.width_class is None,
            e.height_class is None,
    {
        let expected = size.clone();
        ImageEntry {
            filename: Some(filename),
            idiom: Some(idiom),
            scale: Some(scale),
            size: Some(size),
            expected_size: Some(expected),
            role,
            subtype: None,
            folder: None,
            graphics_feature_set: None,
            memory: None,
            color_space: None,
            display_gamut: None,
            compression_type: None,
            language_direction: None,
            screen_width: None,
            template_rendering_intent: None,
            width_class: None,
            height_class: None,
        }
    }

    /// The same entry with a device subtype.
    pub fn with_subtype(self, subtype: String) -> (e: Self)
        ensures
            e == (Self { subtype: Some(subtype), ..self }),
    {
        ImageEntry { subtype: Some(subtype), ..self }
    }

    /// The same entry with a target folder.
    pub fn with_folder(self, folder: String) -> (e: Self)
        ensures
            e == (Self { folder: Some(folder), ..self }),
    {
        ImageEntry { folder: Some(folder), ..self }
    }
}

impl Default for Info {
    /// Default versioning block: version 1 under the generic generator
    /// name.
    fn default() -> (info: Self)
        ensures
            info.version == 1,
            info.author@ == "icon-generator"@,
    {
        Info { version: 1, author: String::from_str("icon-generator") }
    }
}

} // verus!
