//! The rules of the browsable list of downloadable install images read from
//! osinfo-db: which media are offered, how a distro key, a release's
//! variant and an image are named, and which elements of an osinfo-db
//! document make up the catalogue. The XML is parsed by `roxmltree`;
//! reading the files and ordering the images by their decimal version stay
//! with the application.

use vstd::prelude::*;

use crate::text::{
    chars_eq, chars_of, copy_range, decimal, decimal_string, string_of, trim_chars, trim_spec,
};
use crate::usb::opt_view;

verus! {

/// The architectures worth offering for a PC-bootable USB stick.
pub open spec fn offered_arch(arch: Seq<char>) -> bool {
    arch == "x86_64"@ || arch == "aarch64"@
}

/// Whether media of `arch` are offered.
pub fn is_offered_arch(arch: &str) -> (r: bool)
    ensures
        r == offered_arch(arch@),
{
    let a = chars_of(arch);
    chars_eq(a.as_slice(), chars_of("x86_64").as_slice()) || chars_eq(
        a.as_slice(),
        chars_of("aarch64").as_slice(),
    )
}

/// The label of a media variant: its name, unless it just repeats the
/// release name.
pub fn variant_label(variant: Option<String>, release: &str) -> (r: Option<String>)
    ensures
        match variant {
            Some(v) => if v@ == release@ {
                r is None
            } else {
                r matches Some(l) && l@ == v@
            },
            None => r is None,
        },
{
    match variant {
        Some(v) => if chars_eq(chars_of(v.as_str()).as_slice(), chars_of(release).as_slice()) {
            None
        } else {
            Some(v)
        },
        None => None,
    }
}

/// The key a release is grouped under: its distro, else its family, else
/// its name.
pub fn distro_key(distro: Option<String>, family: Option<String>, name: &str) -> (r: String)
    ensures
        r@ == (match distro {
            Some(d) => d@,
            None => match family {
                Some(f) => f@,
                None => name@,
            },
        }),
{
    match distro {
        Some(d) => d,
        None => match family {
            Some(f) => f,
            None => String::from_str(name),
        },
    }
}

/// The upper case of a character, as std's `char::to_uppercase` yields it
/// (one or more characters).
pub uninterp spec fn char_upper(c: char) -> Seq<char>;

/// std's `char::to_uppercase`, collected into a string.
///
/// Trusted: the result is `char_upper(c)`.
#[verifier::external_body]
fn upper_char(c: char) -> (r: String)
    ensures
        r@ == char_upper(c),
{
    c.to_uppercase().collect::<String>()
}

/// A nicer name for an osinfo distro key: a few known keys get their proper
/// names, any other key its first character in upper case.
pub open spec fn pretty_distro_spec(key: Seq<char>) -> Seq<char> {
    if key == "rhel"@ {
        "Red Hat Enterprise Linux"@
    } else if key == "opensuse"@ {
        "openSUSE"@
    } else if key == "sled"@ {
        "SLED"@
    } else if key == "sles"@ {
        "SLES"@
    } else if key == "macosx"@ {
        "macOS"@
    } else if key.len() == 0 {
        key
    } else {
        char_upper(key[0]) + key.drop_first()
    }
}

/// Turn an osinfo distro key into something nicer to read.
pub fn pretty_distro(key: &str) -> (r: String)
    ensures
        r@ == pretty_distro_spec(key@),
{
    let k = chars_of(key);
    if chars_eq(k.as_slice(), chars_of("rhel").as_slice()) {
        String::from_str("Red Hat Enterprise Linux")
    } else if chars_eq(k.as_slice(), chars_of("opensuse").as_slice()) {
        String::from_str("openSUSE")
    } else if chars_eq(k.as_slice(), chars_of("sled").as_slice()) {
        String::from_str("SLED")
    } else if chars_eq(k.as_slice(), chars_of("sles").as_slice()) {
        String::from_str("SLES")
    } else if chars_eq(k.as_slice(), chars_of("macosx").as_slice()) {
        String::from_str("macOS")
    } else if k.len() == 0 {
        String::new()
    } else {
        let first = upper_char(k[0]);
        let rest = copy_range(k.as_slice(), 1, k.len());
        assert(rest@ =~= k@.drop_first());
        first.concat(string_of(rest.as_slice()).as_str())
    }
}

/// The title of a downloadable image: the release name, and the variant
/// when there is one.
pub fn image_title(os_name: &str, variant: Option<&str>) -> (r: String)
    ensures
        r@ == (match variant {
            Some(v) => os_name@ + " · "@ + v@,
            None => os_name@,
        }),
{
    match variant {
        Some(v) => String::from_str(os_name).concat(" · ").concat(v),
        None => String::from_str(os_name),
    }
}

/// The subtitle of a downloadable image: its architecture and whether it is
/// a live image or an installer.
pub fn image_subtitle(arch: &str, live: bool) -> (r: String)
    ensures
        r@ == arch@ + " · "@ + (if live {
            "live"@
        } else {
            "installer"@
        }),
{
    let kind = if live {
        "live"
    } else {
        "installer"
    };
    String::from_str(arch).concat(" · ").concat(kind)
}

/// The subtitle of a distro row: how many images it offers.
pub fn image_count_label(count: u64) -> (r: String)
    ensures
        r@ == decimal(count as nat) + " image"@ + (if count == 1 {
            ""@
        } else {
            "s"@
        }),
{
    let suffix = if count == 1 {
        ""
    } else {
        "s"
    };
    decimal_string(count).concat(" image").concat(suffix)
}

/// A release's variant: its id and its display name.
#[derive(Debug, Clone, PartialEq, Eq)]
pub struct VariantName {
    /// The variant's id, as media refer to it.
    pub id: String,
    /// Its readable name.
    pub name: String,
}

/// The name of the variant with `id`, the last one declared winning.
pub open spec fn variant_name_spec(variants: Seq<VariantName>, id: Seq<char>) -> Option<Seq<char>>
    decreases variants.len(),
{
    if variants.len() == 0 {
        None
    } else if variants.last().id@ == id {
        Some(variants.last().name@)
    } else {
        variant_name_spec(variants.drop_last(), id)
    }
}

/// Look up the readable name of the variant a media refers to.
pub fn variant_name(variants: &Vec<VariantName>, id: &str) -> (r: Option<String>)
    ensures
        match variant_name_spec(variants@, id@) {
            Some(n) => r matches Some(s) && s@ == n,
            None => r is None,
        },
{
    let key = chars_of(id);
    let mut found: Option<String> = None;
    let mut i: usize = 0;
    while i < variants.len()
        invariant
            i <= variants@.len(),
            key@ == id@,
            match variant_name_spec(variants@.take(i as int), id@) {
                Some(n) => found matches Some(s) && s@ == n,
                None => found is None,
            },
        decreases variants@.len() - i,
    {
        assert(variants@.take(i + 1).drop_last() =~= variants@.take(i as int));
        if chars_eq(chars_of(variants[i].id.as_str()).as_slice(), key.as_slice()) {
            found = Some(variants[i].name.clone());
        }
        i = i + 1;
    }
    assert(variants@.take(variants@.len() as int) =~= variants@);
    found
}

/// A downloadable install image offered by the catalog.
#[derive(Debug, Clone, PartialEq, Eq)]
pub struct CatalogImage {
    /// The release's name.
    pub os_name: String,
    /// The variant's label, when it says more than the release name.
    pub variant: Option<String>,
    /// The architecture of the media.
    pub arch: String,
    /// Whether the media is a live image (else an installer).
    pub live: bool,
    /// Where to download it from.
    pub url: String,
}

/// The image a release's media offers: one with an offered architecture
/// and a download URL; it is live exactly when its `live` attribute is
/// `true`, and its variant is labelled as [`variant_label`] says.
pub fn media_image(
    name: &str,
    arch: Option<&str>,
    url: Option<String>,
    live: Option<&str>,
    variant: Option<String>,
) -> (r: Option<CatalogImage>)
    ensures
        (arch matches Some(a) && offered_arch(a@) && url is Some) ==> (r matches Some(img) && {
            &&& img.os_name@ == name@
            &&& img.arch@ == arch->0@
            &&& img.url@ == url->0@
            &&& img.live == (live matches Some(l) && l@ == "true"@)
            &&& match variant {
                Some(v) => if v@ == name@ {
                    img.variant is None
                } else {
                    img.variant matches Some(l) && l@ == v@
                },
                None => img.variant is None,
            }
        }),
        !(arch matches Some(a) && offered_arch(a@) && url is Some) ==> r is None,
        image_view(r) == media_image_spec(
            name@,
            str_view(arch),
            opt_view(url),
            str_view(live),
            opt_view(variant),
        ),
{
    let a = match arch {
        Some(a) => a,
        None => return None,
    };
    if !is_offered_arch(a) {
        return None;
    }
    let u = match url {
        Some(u) => u,
        None => return None,
    };
    let is_live = match live {
        Some(l) => chars_eq(chars_of(l).as_slice(), chars_of("true").as_slice()),
        None => false,
    };
    Some(
        CatalogImage {
            os_name: String::from_str(name),
            variant: variant_label(variant, name),
            arch: String::from_str(a),
            live: is_live,
            url: u,
        },
    )
}

/// The mathematical content of a [`CatalogImage`].
pub struct CatalogImageView {
    pub os_name: Seq<char>,
    pub variant: Option<Seq<char>>,
    pub arch: Seq<char>,
    pub live: bool,
    pub url: Seq<char>,
}

impl View for CatalogImage {
    type V = CatalogImageView;

    open spec fn view(&self) -> CatalogImageView {
        CatalogImageView {
            os_name: self.os_name@,
            variant: opt_view(self.variant),
            arch: self.arch@,
            live: self.live,
            url: self.url@,
        }
    }
}

/// An optional image by its content.
pub open spec fn image_view(o: Option<CatalogImage>) -> Option<CatalogImageView> {
    match o {
        Some(i) => Some(i@),
        None => None,
    }
}

/// An optional string slice by its characters.
pub open spec fn str_view(o: Option<&str>) -> Option<Seq<char>> {
    match o {
        Some(s) => Some(s@),
        None => None,
    }
}

/// The image a release named `name` offers through a media with these
/// attributes, URL and variant label.
pub open spec fn media_image_spec(
    name: Seq<char>,
    arch: Option<Seq<char>>,
    url: Option<Seq<char>>,
    live: Option<Seq<char>>,
    variant: Option<Seq<char>>,
) -> Option<CatalogImageView> {
    match (arch, url) {
        (Some(a), Some(u)) => if offered_arch(a) {
            Some(
                CatalogImageView {
                    os_name: name,
                    variant: match variant {
                        Some(v) => if v == name {
                            None
                        } else {
                            Some(v)
                        },
                        None => None,
                    },
                    arch: a,
                    live: live == Some("true"@),
                    url: u,
                },
            )
        } else {
            None
        },
        _ => None,
    }
}

// ---------------------------------------------------------------------------
// The osinfo-db document
// ---------------------------------------------------------------------------

/// An attribute of an XML element.
#[derive(Debug, Clone)]
pub struct XmlAttribute {
    /// Its local name.
    pub name: String,
    /// Its value.
    pub value: String,
}

/// A node of a parsed XML document, listed in document order.
#[derive(Debug, Clone)]
pub struct XmlNode {
    /// The node's id, its position in the document's list of nodes.
    pub id: usize,
    /// Whether it is an element.
    pub element: bool,
    /// An element's local name (empty for other nodes).
    pub tag: String,
    /// An element's attributes, in order.
    pub attributes: Vec<XmlAttribute>,
    /// Its text: an element's leading text child, a text or comment node's
    /// content.
    pub text: Option<String>,
    /// The ids of its children, in order.
    pub children: Vec<usize>,
}

/// The mathematical content of an [`XmlNode`].
pub struct XmlNodeView {
    pub id: usize,
    pub element: bool,
    pub tag: Seq<char>,
    pub attributes: Seq<(Seq<char>, Seq<char>)>,
    pub text: Option<Seq<char>>,
    pub children: Seq<usize>,
}

impl View for XmlNode {
    type V = XmlNodeView;

    open spec fn view(&self) -> XmlNodeView {
        XmlNodeView {
            id: self.id,
            element: self.element,
            tag: self.tag@,
            attributes: self.attributes@.map_values(|a: XmlAttribute| (a.name@, a.value@)),
            text: opt_view(self.text),
            children: self.children@,
        }
    }
}

/// The nodes of a document by their content.
pub open spec fn node_views(v: Seq<XmlNode>) -> Seq<XmlNodeView> {
    v.map_values(|n: XmlNode| n@)
}

/// The nodes of the XML document in `text`, in document order, as
/// `roxmltree` parses it; `None` when it is not well-formed XML.
pub uninterp spec fn xml_nodes(text: Seq<char>) -> Option<Seq<XmlNodeView>>;

/// `roxmltree::Document::parse`, with every node of the document listed in
/// document order.
///
/// Trusted: the result is `xml_nodes` of the text.
#[verifier::external_body]
fn parse_xml(text: &str) -> (r: Option<Vec<XmlNode>>)
    ensures
        match r {
            Some(v) => xml_nodes(text@) == Some(node_views(v@)),
            None => xml_nodes(text@) is None,
        },
{
    roxmltree::Document::parse(text).ok().map(|doc| doc.descendants().map(|n| XmlNode {
        id: n.id().get() as usize,
        element: n.is_element(),
        tag: n.tag_name().name().to_string(),
        attributes: n.attributes().map(|a| XmlAttribute {
            name: a.name().to_string(),
            value: a.value().to_string(),
        }).collect(),
        text: n.text().map(|t| t.to_string()),
        children: n.children().map(|c| c.id().get() as usize).collect(),
    }).collect())
}

/// The value of the first attribute named `name`.
pub open spec fn first_attr(attrs: Seq<(Seq<char>, Seq<char>)>, name: Seq<char>) -> Option<
    Seq<char>,
>
    decreases attrs.len(),
{
    if attrs.len() == 0 {
        None
    } else {
        match first_attr(attrs.drop_last(), name) {
            Some(v) => Some(v),
            None => if attrs.last().0 == name {
                Some(attrs.last().1)
            } else {
                None
            },
        }
    }
}

/// Whether id `c` names an element called `tag`.
pub open spec fn is_tagged(nv: Seq<XmlNodeView>, c: usize, tag: Seq<char>) -> bool {
    c < nv.len() && nv[c as int].id == c && nv[c as int].element && nv[c as int].tag == tag
}

/// The first of the children `cs` that is an element called `tag`.
pub open spec fn first_tagged(nv: Seq<XmlNodeView>, cs: Seq<usize>, tag: Seq<char>) -> Option<usize>
    decreases cs.len(),
{
    if cs.len() == 0 {
        None
    } else {
        match first_tagged(nv, cs.drop_last(), tag) {
            Some(c) => Some(c),
            None => if is_tagged(nv, cs.last(), tag) {
                Some(cs.last())
            } else {
                None
            },
        }
    }
}

/// Text as the catalogue reads it: trimmed, and none when empty.
pub open spec fn text_of(t: Option<Seq<char>>) -> Option<Seq<char>> {
    match t {
        Some(s) => if trim_spec(s).len() > 0 {
            Some(trim_spec(s))
        } else {
            None
        },
        None => None,
    }
}

/// The text of node `i`'s first child element called `tag`.
pub open spec fn child_text_spec(nv: Seq<XmlNodeView>, i: int, tag: Seq<char>) -> Option<Seq<char>> {
    match first_tagged(nv, nv[i].children, tag) {
        Some(c) => text_of(nv[c as int].text),
        None => None,
    }
}

/// The variants declared among the children `cs`: each `variant` element
/// with an `id` attribute and a `name`, as (id, name).
pub open spec fn variant_pairs(nv: Seq<XmlNodeView>, cs: Seq<usize>) -> Seq<(Seq<char>, Seq<char>)>
    decreases cs.len(),
{
    if cs.len() == 0 {
        Seq::empty()
    } else {
        let p = variant_pairs(nv, cs.drop_last());
        let c = cs.last();
        if is_tagged(nv, c, "variant"@) {
            match (first_attr(nv[c as int].attributes, "id"@), child_text_spec(
                nv,
                c as int,
                "name"@,
            )) {
                (Some(id), Some(n)) => p.push((id, n)),
                _ => p,
            }
        } else {
            p
        }
    }
}

/// The name declared for variant `id`, the last declaration winning.
pub open spec fn pair_lookup(pairs: Seq<(Seq<char>, Seq<char>)>, id: Seq<char>) -> Option<Seq<char>>
    decreases pairs.len(),
{
    if pairs.len() == 0 {
        None
    } else if pairs.last().0 == id {
        Some(pairs.last().1)
    } else {
        pair_lookup(pairs.drop_last(), id)
    }
}

/// Variant declarations as (id, name) pairs.
pub open spec fn var_pairs(vs: Seq<VariantName>) -> Seq<(Seq<char>, Seq<char>)> {
    vs.map_values(|v: VariantName| (v.id@, v.name@))
}

/// Looking a variant up in its declarations is looking it up in the pairs.
proof fn lemma_variant_lookup(vs: Seq<VariantName>, id: Seq<char>)
    ensures
        variant_name_spec(vs, id) == pair_lookup(var_pairs(vs), id),
    decreases vs.len(),
{
    if vs.len() > 0 {
        lemma_variant_lookup(vs.drop_last(), id);
        assert(var_pairs(vs).drop_last() =~= var_pairs(vs.drop_last()));
    }
}

/// One offered image with the release it belongs to.
#[derive(Debug, Clone)]
pub struct CatalogEntry {
    /// The key the release is grouped under.
    pub key: String,
    /// The readable name of that group.
    pub distro: String,
    /// The release's version text, if it has one.
    pub version: Option<String>,
    /// The image.
    pub image: CatalogImage,
}

/// The mathematical content of a [`CatalogEntry`].
pub struct CatalogEntryView {
    pub key: Seq<char>,
    pub distro: Seq<char>,
    pub version: Option<Seq<char>>,
    pub image: CatalogImageView,
}

impl View for CatalogEntry {
    type V = CatalogEntryView;

    open spec fn view(&self) -> CatalogEntryView {
        CatalogEntryView {
            key: self.key@,
            distro: self.distro@,
            version: opt_view(self.version),
            image: self.image@,
        }
    }
}

/// Entries by their content.
pub open spec fn entry_views(v: Seq<CatalogEntry>) -> Seq<CatalogEntryView> {
    v.map_values(|e: CatalogEntry| e@)
}

/// The label of the variant media `c` refers to.
pub open spec fn media_variant(
    nv: Seq<XmlNodeView>,
    c: usize,
    vars: Seq<(Seq<char>, Seq<char>)>,
) -> Option<Seq<char>> {
    match first_tagged(nv, nv[c as int].children, "variant"@) {
        Some(v) => match first_attr(nv[v as int].attributes, "id"@) {
            Some(id) => pair_lookup(vars, id),
            None => None,
        },
        None => None,
    }
}

/// The entries of the `media` elements among the children `cs` of a
/// release named `name`, grouped under `key`.
pub open spec fn media_entries(
    nv: Seq<XmlNodeView>,
    name: Seq<char>,
    key: Seq<char>,
    version: Option<Seq<char>>,
    vars: Seq<(Seq<char>, Seq<char>)>,
    cs: Seq<usize>,
) -> Seq<CatalogEntryView>
    decreases cs.len(),
{
    if cs.len() == 0 {
        Seq::empty()
    } else {
        let p = media_entries(nv, name, key, version, vars, cs.drop_last());
        let c = cs.last();
        if is_tagged(nv, c, "media"@) {
            match media_image_spec(
                name,
                first_attr(nv[c as int].attributes, "arch"@),
                child_text_spec(nv, c as int, "url"@),
                first_attr(nv[c as int].attributes, "live"@),
                media_variant(nv, c, vars),
            ) {
                Some(img) => p.push(
                    CatalogEntryView {
                        key,
                        distro: pretty_distro_spec(key),
                        version,
                        image: img,
                    },
                ),
                None => p,
            }
        } else {
            p
        }
    }
}

/// The entries of the release described by the `os` element `i`: none
/// without a name; else one per offered media.
pub open spec fn os_entries(nv: Seq<XmlNodeView>, i: int) -> Seq<CatalogEntryView> {
    let name = match child_text_spec(nv, i, "name"@) {
        Some(n) => n,
        None => Seq::empty(),
    };
    if name.len() == 0 {
        Seq::empty()
    } else {
        let key = match child_text_spec(nv, i, "distro"@) {
            Some(d) => d,
            None => match child_text_spec(nv, i, "family"@) {
                Some(f) => f,
                None => name,
            },
        };
        media_entries(
            nv,
            name,
            key,
            child_text_spec(nv, i, "version"@),
            variant_pairs(nv, nv[i].children),
            nv[i].children,
        )
    }
}

/// The catalogue entries of the first `n` nodes: those of every `os`
/// element, in document order.
pub open spec fn catalog_spec(nv: Seq<XmlNodeView>, n: int) -> Seq<CatalogEntryView>
    decreases n,
{
    if n <= 0 {
        Seq::empty()
    } else {
        let p = catalog_spec(nv, n - 1);
        if nv[n - 1].element && nv[n - 1].tag == "os"@ {
            p + os_entries(nv, n - 1)
        } else {
            p
        }
    }
}

/// The value of the first attribute of `node` named `name`.
fn attribute_of(node: &XmlNode, name: &str) -> (r: Option<String>)
    ensures
        opt_view(r) == first_attr(node@.attributes, name@),
{
    let ghost attrs = node@.attributes;
    let key = chars_of(name);
    let mut k: usize = 0;
    while k < node.attributes.len()
        invariant
            k <= node.attributes@.len(),
            attrs == node@.attributes,
            key@ == name@,
            first_attr(attrs.take(k as int), name@) is None,
        decreases node.attributes@.len() - k,
    {
        assert(attrs.take(k + 1).drop_last() =~= attrs.take(k as int));
        assert(attrs.take(k + 1).last() == attrs[k as int]);
        if chars_eq(chars_of(node.attributes[k].name.as_str()).as_slice(), key.as_slice()) {
            assert(first_attr(attrs.take(k + 1), name@) == Some(attrs[k as int].1));
            let r = Some(node.attributes[k].value.clone());
            proof {
                lemma_first_attr_prefix(attrs, name@, k + 1);
            }
            return r;
        }
        k = k + 1;
    }
    assert(attrs.take(k as int) =~= attrs);
    None
}

/// Once found in a prefix, the first attribute stays the first.
proof fn lemma_first_attr_prefix(attrs: Seq<(Seq<char>, Seq<char>)>, name: Seq<char>, k: int)
    requires
        0 <= k <= attrs.len(),
        first_attr(attrs.take(k), name) is Some,
    ensures
        first_attr(attrs, name) == first_attr(attrs.take(k), name),
    decreases attrs.len() - k,
{
    if k < attrs.len() {
        assert(attrs.take(k + 1).drop_last() =~= attrs.take(k));
        lemma_first_attr_prefix(attrs, name, k + 1);
    } else {
        assert(attrs.take(k) =~= attrs);
    }
}

/// Once found in a prefix, the first tagged child stays the first.
proof fn lemma_first_tagged_prefix(nv: Seq<XmlNodeView>, cs: Seq<usize>, tag: Seq<char>, k: int)
    requires
        0 <= k <= cs.len(),
        first_tagged(nv, cs.take(k), tag) is Some,
    ensures
        first_tagged(nv, cs, tag) == first_tagged(nv, cs.take(k), tag),
    decreases cs.len() - k,
{
    if k < cs.len() {
        assert(cs.take(k + 1).drop_last() =~= cs.take(k));
        lemma_first_tagged_prefix(nv, cs, tag, k + 1);
    } else {
        assert(cs.take(k) =~= cs);
    }
}

/// The first child of node `i` that is an element called `tag`.
fn first_child_tagged(nodes: &Vec<XmlNode>, i: usize, tag: &str) -> (r: Option<usize>)
    requires
        i < nodes@.len(),
    ensures
        r == first_tagged(node_views(nodes@), nodes@[i as int]@.children, tag@),
        r matches Some(c) ==> c < nodes@.len(),
{
    let ghost nv = node_views(nodes@);
    let ghost cs = nodes@[i as int]@.children;
    let t = chars_of(tag);
    let mut k: usize = 0;
    while k < nodes[i].children.len()
        invariant
            i < nodes@.len(),
            nv == node_views(nodes@),
            cs == nodes@[i as int]@.children,
            cs == nodes@[i as int].children@,
            k <= cs.len(),
            t@ == tag@,
            first_tagged(nv, cs.take(k as int), tag@) is None,
        decreases cs.len() - k,
    {
        assert(cs.take(k + 1).drop_last() =~= cs.take(k as int));
        assert(cs.take(k + 1).last() == cs[k as int]);
        let c = nodes[i].children[k];
        let hit = if c < nodes.len() {
            assert(nv[c as int] == nodes@[c as int]@);
            nodes[c].id == c && nodes[c].element && chars_eq(
                chars_of(nodes[c].tag.as_str()).as_slice(),
                t.as_slice(),
            )
        } else {
            false
        };
        if hit {
            proof {
                lemma_first_tagged_prefix(nv, cs, tag@, k + 1);
            }
            return Some(c);
        }
        k = k + 1;
    }
    assert(cs.take(k as int) =~= cs);
    None
}

/// Text as the catalogue reads it.
fn text_value(t: &Option<String>) -> (r: Option<String>)
    ensures
        opt_view(r) == text_of(opt_view(*t)),
{
    match t {
        Some(s) => {
            let v = trim_chars(chars_of(s.as_str()).as_slice());
            if v.len() > 0 {
                Some(string_of(v.as_slice()))
            } else {
                None
            }
        },
        None => None,
    }
}

/// The text of node `i`'s first child element called `tag`.
fn child_text(nodes: &Vec<XmlNode>, i: usize, tag: &str) -> (r: Option<String>)
    requires
        i < nodes@.len(),
    ensures
        opt_view(r) == child_text_spec(node_views(nodes@), i as int, tag@),
{
    assert(node_views(nodes@)[i as int] == nodes@[i as int]@);
    match first_child_tagged(nodes, i, tag) {
        Some(c) => {
            assert(node_views(nodes@)[c as int] == nodes@[c as int]@);
            text_value(&nodes[c].text)
        },
        None => None,
    }
}

/// The variants declared by the children of node `i`.
fn variants_of(nodes: &Vec<XmlNode>, i: usize) -> (r: Vec<VariantName>)
    requires
        i < nodes@.len(),
    ensures
        var_pairs(r@) == variant_pairs(node_views(nodes@), nodes@[i as int]@.children),
{
    let ghost nv = node_views(nodes@);
    let ghost cs = nodes@[i as int]@.children;
    let mut r: Vec<VariantName> = Vec::new();
    let mut k: usize = 0;
    assert(var_pairs(r@) =~= variant_pairs(nv, cs.take(0)));
    while k < nodes[i].children.len()
        invariant
            i < nodes@.len(),
            nv == node_views(nodes@),
            cs == nodes@[i as int]@.children,
            cs == nodes@[i as int].children@,
            k <= cs.len(),
            var_pairs(r@) == variant_pairs(nv, cs.take(k as int)),
        decreases cs.len() - k,
    {
        assert(cs.take(k + 1).drop_last() =~= cs.take(k as int));
        assert(cs.take(k + 1).last() == cs[k as int]);
        let c = nodes[i].children[k];
        let tagged = if c < nodes.len() {
            assert(nv[c as int] == nodes@[c as int]@);
            nodes[c].id == c && nodes[c].element && chars_eq(
                chars_of(nodes[c].tag.as_str()).as_slice(),
                chars_of("variant").as_slice(),
            )
        } else {
            false
        };
        if tagged {
            assert(nv[c as int] == nodes@[c as int]@);
            let id = attribute_of(&nodes[c], "id");
            let name = child_text(nodes, c, "name");
            match (id, name) {
                (Some(id), Some(name)) => {
                    let ghost before = r@;
                    r.push(VariantName { id, name });
                    assert(var_pairs(r@) =~= var_pairs(before).push((r@.last().id@, r@.last().name@)));
                },
                _ => {},
            }
        }
        k = k + 1;
    }
    assert(cs.take(k as int) =~= cs);
    r
}

/// Append the entries of release `i`'s media to `out`.
fn media_entries_of(
    nodes: &Vec<XmlNode>,
    i: usize,
    name: &str,
    key: &str,
    version: &Option<String>,
    vars: &Vec<VariantName>,
    out: &mut Vec<CatalogEntry>,
)
    requires
        i < nodes@.len(),
    ensures
        entry_views(final(out)@) == entry_views(old(out)@) + media_entries(
            node_views(nodes@),
            name@,
            key@,
            opt_view(*version),
            var_pairs(vars@),
            nodes@[i as int]@.children,
        ),
{
    let ghost nv = node_views(nodes@);
    let ghost cs = nodes@[i as int]@.children;
    let ghost base = entry_views(out@);
    let distro = pretty_distro(key);
    let mut k: usize = 0;
    assert(entry_views(out@) =~= base + media_entries(
        nv,
        name@,
        key@,
        opt_view(*version),
        var_pairs(vars@),
        cs.take(0),
    ));
    while k < nodes[i].children.len()
        invariant
            i < nodes@.len(),
            nv == node_views(nodes@),
            cs == nodes@[i as int]@.children,
            cs == nodes@[i as int].children@,
            k <= cs.len(),
            distro@ == pretty_distro_spec(key@),
            entry_views(out@) == base + media_entries(
                nv,
                name@,
                key@,
                opt_view(*version),
                var_pairs(vars@),
                cs.take(k as int),
            ),
        decreases cs.len() - k,
    {
        assert(cs.take(k + 1).drop_last() =~= cs.take(k as int));
        assert(cs.take(k + 1).last() == cs[k as int]);
        let c = nodes[i].children[k];
        let tagged = if c < nodes.len() {
            assert(nv[c as int] == nodes@[c as int]@);
            nodes[c].id == c && nodes[c].element && chars_eq(
                chars_of(nodes[c].tag.as_str()).as_slice(),
                chars_of("media").as_slice(),
            )
        } else {
            false
        };
        if tagged {
            assert(nv[c as int] == nodes@[c as int]@);
            let variant = match first_child_tagged(nodes, c, "variant") {
                Some(v) => {
                    assert(nv[v as int] == nodes@[v as int]@);
                    match attribute_of(&nodes[v], "id") {
                        Some(id) => {
                            proof {
                                lemma_variant_lookup(vars@, id@);
                            }
                            variant_name(vars, id.as_str())
                        },
                        None => None,
                    }
                },
                None => None,
            };
            assert(opt_view(variant) == media_variant(nv, c, var_pairs(vars@)));
            let arch = attribute_of(&nodes[c], "arch");
            let url = child_text(nodes, c, "url");
            let live = attribute_of(&nodes[c], "live");
            let arch_ref: Option<&str> = match &arch {
                Some(a) => Some(a.as_str()),
                None => None,
            };
            let live_ref: Option<&str> = match &live {
                Some(l) => Some(l.as_str()),
                None => None,
            };
            assert(str_view(arch_ref) == opt_view(arch));
            assert(str_view(live_ref) == opt_view(live));
            match media_image(name, arch_ref, url, live_ref, variant) {
                Some(image) => {
                    let ghost before = out@;
                    out.push(
                        CatalogEntry {
                            key: String::from_str(key),
                            distro: distro.clone(),
                            version: match version {
                                Some(v) => Some(v.clone()),
                                None => None,
                            },
                            image,
                        },
                    );
                    assert(entry_views(out@) =~= entry_views(before).push(out@.last()@));
                },
                None => {},
            }
        }
        k = k + 1;
    }
    assert(cs.take(k as int) =~= cs);
}

/// Append the entries of the release described by the `os` element `i`.
fn os_entries_of(nodes: &Vec<XmlNode>, i: usize, out: &mut Vec<CatalogEntry>)
    requires
        i < nodes@.len(),
    ensures
        entry_views(final(out)@) == entry_views(old(out)@) + os_entries(node_views(nodes@), i as int),
{
    let name = match child_text(nodes, i, "name") {
        Some(n) => n,
        None => {
            assert(entry_views(out@) =~= entry_views(out@) + Seq::<CatalogEntryView>::empty());
            return;
        },
    };
    let key = distro_key(child_text(nodes, i, "distro"), child_text(nodes, i, "family"), name.as_str());
    let version = child_text(nodes, i, "version");
    let vars = variants_of(nodes, i);
    media_entries_of(nodes, i, name.as_str(), key.as_str(), &version, &vars, out);
}

/// The catalogue entries of a parsed osinfo-db document: one per offered
/// media of every named release, in document order.
pub fn catalog_entries(nodes: &Vec<XmlNode>) -> (r: Vec<CatalogEntry>)
    ensures
        entry_views(r@) == catalog_spec(node_views(nodes@), nodes@.len() as int),
{
    let ghost nv = node_views(nodes@);
    let mut out: Vec<CatalogEntry> = Vec::new();
    let mut k: usize = 0;
    assert(entry_views(out@) =~= Seq::<CatalogEntryView>::empty());
    while k < nodes.len()
        invariant
            k <= nodes@.len(),
            nv == node_views(nodes@),
            entry_views(out@) == catalog_spec(nv, k as int),
        decreases nodes@.len() - k,
    {
        assert(nv[k as int] == nodes@[k as int]@);
        if nodes[k].element && chars_eq(
            chars_of(nodes[k].tag.as_str()).as_slice(),
            chars_of("os").as_slice(),
        ) {
            os_entries_of(nodes, k, &mut out);
        } else {
            assert(entry_views(out@) == catalog_spec(nv, k + 1));
        }
        k = k + 1;
    }
    out
}

/// The catalogue entries of an osinfo-db XML file, or `None` when it is
/// not well-formed XML.
pub fn parse_catalog(text: &str) -> (r: Option<Vec<CatalogEntry>>)
    ensures
        match xml_nodes(text@) {
            Some(nv) => r matches Some(v) && entry_views(v@) == catalog_spec(nv, nv.len() as int),
            None => r is None,
        },
{
    match parse_xml(text) {
        Some(nodes) => Some(catalog_entries(&nodes)),
        None => None,
    }
}

// ---------------------------------------------------------------------------
// Grouping the entries by distro
// ---------------------------------------------------------------------------

/// The distinct keys among the first `n` entries, in the order they first
/// appear.
pub open spec fn group_keys(es: Seq<CatalogEntryView>, n: int) -> Seq<Seq<char>>
    decreases n,
{
    if n <= 0 {
        Seq::empty()
    } else {
        let ks = group_keys(es, n - 1);
        if ks.contains(es[n - 1].key) {
            ks
        } else {
            ks.push(es[n - 1].key)
        }
    }
}

/// The indices, in order, of the first `n` entries whose key is `k`.
pub open spec fn key_indices(es: Seq<CatalogEntryView>, k: Seq<char>, n: int) -> Seq<usize>
    decreases n,
{
    if n <= 0 {
        Seq::empty()
    } else {
        let p = key_indices(es, k, n - 1);
        if es[n - 1].key == k {
            p.push((n - 1) as usize)
        } else {
            p
        }
    }
}

/// The entries of one distro: its key, its readable name and the indices
/// of its entries.
#[derive(Debug, Clone)]
pub struct CatalogGroup {
    /// The key the entries share.
    pub key: String,
    /// The readable name, that of the group's first entry.
    pub distro: String,
    /// The indices of the group's entries, in order.
    pub members: Vec<usize>,
}

/// A key found among the first `n` entries has an entry.
pub proof fn lemma_group_key_has_entry(es: Seq<CatalogEntryView>, k: Seq<char>, n: int)
    requires
        0 <= n <= es.len(),
        group_keys(es, n).contains(k),
    ensures
        key_indices(es, k, n).len() > 0,
    decreases n,
{
    if n > 0 {
        let ks = group_keys(es, n - 1);
        if ks.contains(k) {
            lemma_group_key_has_entry(es, k, n - 1);
        }
    }
}

/// Whether `key` is among `keys`.
fn has_key(keys: &Vec<String>, key: &str) -> (r: bool)
    ensures
        r == keys@.map_values(|s: String| s@).contains(key@),
{
    let ghost kv = keys@.map_values(|s: String| s@);
    let kc = chars_of(key);
    let mut i: usize = 0;
    while i < keys.len()
        invariant
            i <= keys@.len(),
            kv == keys@.map_values(|s: String| s@),
            kc@ == key@,
            forall|j: int| 0 <= j < i ==> kv[j] != key@,
        decreases keys@.len() - i,
    {
        if chars_eq(chars_of(keys[i].as_str()).as_slice(), kc.as_slice()) {
            assert(kv[i as int] == key@);
            return true;
        }
        i = i + 1;
    }
    assert(!kv.contains(key@)) by {
        if kv.contains(key@) {
            let j = choose|j: int| 0 <= j < kv.len() && kv[j] == key@;
            assert(kv[j] != key@);
        }
    }
    false
}

/// The entries grouped by key: one group per distinct key, in the order the
/// keys first appear, each holding the indices of the entries with its key
/// in order and named as its first entry names its distro.
pub fn group_entries(entries: &Vec<CatalogEntry>) -> (r: Vec<CatalogGroup>)
    ensures
        r@.len() == group_keys(entry_views(entries@), entries@.len() as int).len(),
        forall|i: int|
            0 <= i < r@.len() ==> {
                let es = entry_views(entries@);
                let n = entries@.len() as int;
                let g = #[trigger] r@[i];
                &&& g.key@ == group_keys(es, n)[i]
                &&& g.members@ == key_indices(es, g.key@, n)
                &&& g.members@.len() > 0
                &&& g.distro@ == es[g.members@[0] as int].distro
            },
{
    let ghost es = entry_views(entries@);
    let n = entries.len();
    let mut keys: Vec<String> = Vec::new();
    let mut m: usize = 0;
    while m < n
        invariant
            n == entries@.len(),
            es == entry_views(entries@),
            m <= n,
            keys@.map_values(|s: String| s@) == group_keys(es, m as int),
        decreases n - m,
    {
        assert(es[m as int] == entries@[m as int]@);
        if !has_key(&keys, entries[m].key.as_str()) {
            let k = entries[m].key.clone();
            keys.push(k);
            assert(keys@.map_values(|s: String| s@) =~= group_keys(es, m as int).push(es[m as int].key));
        }
        m = m + 1;
    }
    let mut out: Vec<CatalogGroup> = Vec::new();
    let mut i: usize = 0;
    while i < keys.len()
        invariant
            n == entries@.len(),
            es == entry_views(entries@),
            keys@.map_values(|s: String| s@) == group_keys(es, n as int),
            i <= keys@.len(),
            out@.len() == i,
            forall|g: int|
                0 <= g < i ==> {
                    let grp = #[trigger] out@[g];
                    &&& grp.key@ == group_keys(es, n as int)[g]
                    &&& grp.members@ == key_indices(es, grp.key@, n as int)
                    &&& grp.members@.len() > 0
                    &&& grp.distro@ == es[grp.members@[0] as int].distro
                },
        decreases keys@.len() - i,
    {
        let ghost k = keys@[i as int]@;
        assert(k == group_keys(es, n as int)[i as int]);
        let kc = chars_of(keys[i].as_str());
        let mut members: Vec<usize> = Vec::new();
        let mut distro = String::new();
        let mut j: usize = 0;
        while j < n
            invariant
                n == entries@.len(),
                es == entry_views(entries@),
                j <= n,
                kc@ == k,
                members@ == key_indices(es, k, j as int),
                members@.len() > 0 ==> distro@ == es[members@[0] as int].distro,
            decreases n - j,
        {
            assert(es[j as int] == entries@[j as int]@);
            if chars_eq(chars_of(entries[j].key.as_str()).as_slice(), kc.as_slice()) {
                if members.len() == 0 {
                    distro = entries[j].distro.clone();
                }
                members.push(j);
            }
            j = j + 1;
        }
        proof {
            assert(group_keys(es, n as int).contains(k));
            lemma_group_key_has_entry(es, k, n as int);
        }
        let key = keys[i].clone();
        out.push(CatalogGroup { key, distro, members });
        i = i + 1;
    }
    out
}

// ---------------------------------------------------------------------------
// Ordering the groups by name
// ---------------------------------------------------------------------------

/// The lower case of a string, as std's `str::to_lowercase` yields it.
pub uninterp spec fn str_lower(s: Seq<char>) -> Seq<char>;

/// std's `str::to_lowercase`.
///
/// Trusted: the result is `str_lower(s)`.
#[verifier::external_body]
fn lowercase(s: &str) -> (r: String)
    ensures
        r@ == str_lower(s@),
{
    s.to_lowercase()
}

/// Whether `a` comes no later than `b` in the order of strings: character
/// by character by code point, a prefix first.
pub open spec fn chars_le(a: Seq<char>, b: Seq<char>) -> bool
    decreases a.len(),
{
    if a.len() == 0 {
        true
    } else if b.len() == 0 {
        false
    } else if a[0] == b[0] {
        chars_le(a.drop_first(), b.drop_first())
    } else {
        (a[0] as int) < (b[0] as int)
    }
}

/// Any two strings are ordered one way or the other.
pub proof fn lemma_chars_le_total(a: Seq<char>, b: Seq<char>)
    ensures
        chars_le(a, b) || chars_le(b, a),
    decreases a.len(),
{
    if a.len() > 0 && b.len() > 0 && a[0] == b[0] {
        lemma_chars_le_total(a.drop_first(), b.drop_first());
    }
}

/// The order of strings is transitive.
pub proof fn lemma_chars_le_trans(a: Seq<char>, b: Seq<char>, c: Seq<char>)
    requires
        chars_le(a, b),
        chars_le(b, c),
    ensures
        chars_le(a, c),
    decreases a.len(),
{
    if a.len() > 0 && b.len() > 0 && c.len() > 0 && a[0] == b[0] && b[0] == c[0] {
        lemma_chars_le_trans(a.drop_first(), b.drop_first(), c.drop_first());
    }
}

/// Whether `a` comes no later than `b`.
fn chars_le_exec(a: &[char], b: &[char]) -> (r: bool)
    ensures
        r == chars_le(a@, b@),
{
    let mut i: usize = 0;
    assert(a@.skip(0) =~= a@);
    assert(b@.skip(0) =~= b@);
    while i < a.len() && i < b.len()
        invariant
            i <= a@.len(),
            i <= b@.len(),
            chars_le(a@, b@) == chars_le(a@.skip(i as int), b@.skip(i as int)),
        decreases a@.len() - i,
    {
        assert(a@.skip(i as int)[0] == a@[i as int]);
        assert(b@.skip(i as int)[0] == b@[i as int]);
        if a[i] != b[i] {
            return a[i] < b[i];
        }
        assert(a@.skip(i as int).drop_first() =~= a@.skip(i + 1));
        assert(b@.skip(i as int).drop_first() =~= b@.skip(i + 1));
        i = i + 1;
    }
    i == a.len()
}

/// The order in which to list the groups: by their names in lower case.
/// The result holds each index of `groups` once, and lists them so that the
/// lower-cased names never decrease.
pub fn order_by_name(groups: &Vec<CatalogGroup>) -> (r: Vec<usize>)
    ensures
        r@.len() == groups@.len(),
        forall|i: int| 0 <= i < r@.len() ==> r@[i] < groups@.len(),
        forall|i: int, j: int| 0 <= i < j < r@.len() ==> r@[i] != r@[j],
        forall|i: int, j: int|
            0 <= i < j < r@.len() ==> chars_le(
                str_lower(groups@[r@[i] as int].distro@),
                str_lower(groups@[r@[j] as int].distro@),
            ),
{
    let n = groups.len();
    let mut keys: Vec<Vec<char>> = Vec::new();
    let mut k: usize = 0;
    while k < n
        invariant
            n == groups@.len(),
            k <= n,
            keys@.len() == k,
            forall|x: int| 0 <= x < k ==> #[trigger] keys@[x]@ == str_lower(groups@[x].distro@),
        decreases n - k,
    {
        let l = lowercase(groups[k].distro.as_str());
        keys.push(chars_of(l.as_str()));
        k = k + 1;
    }
    let mut out: Vec<usize> = Vec::new();
    let mut k: usize = 0;
    while k < n
        invariant
            n == groups@.len(),
            keys@.len() == n,
            forall|x: int| 0 <= x < n ==> #[trigger] keys@[x]@ == str_lower(groups@[x].distro@),
            k <= n,
            out@.len() == k,
            forall|i: int| 0 <= i < out@.len() ==> out@[i] < k,
            forall|i: int, j: int| 0 <= i < j < out@.len() ==> out@[i] != out@[j],
            forall|i: int, j: int|
                0 <= i < j < out@.len() ==> chars_le(keys@[out@[i] as int]@, keys@[out@[j] as int]@),
        decreases n - k,
    {
        let mut p: usize = 0;
        while p < out.len() && chars_le_exec(keys[out[p]].as_slice(), keys[k].as_slice())
            invariant
                n == groups@.len(),
                keys@.len() == n,
                k < n,
                p <= out@.len(),
                forall|i: int| 0 <= i < out@.len() ==> out@[i] < k,
                forall|q: int| 0 <= q < p ==> chars_le(keys@[out@[q] as int]@, keys@[k as int]@),
            decreases out@.len() - p,
        {
            p = p + 1;
        }
        let ghost before = out@;
        proof {
            if p < before.len() {
                lemma_chars_le_total(keys@[before[p as int] as int]@, keys@[k as int]@);
            }
        }
        out.insert(p, k);
        proof {
            assert(out@ =~= before.insert(p as int, k));
            assert forall|i: int, j: int| 0 <= i < j < out@.len() implies chars_le(
                keys@[out@[i] as int]@,
                keys@[out@[j] as int]@,
            ) by {
                if j < p {
                    assert(out@[i] == before[i] && out@[j] == before[j]);
                } else if j == p {
                    assert(out@[i] == before[i]);
                } else if i < p {
                    assert(out@[i] == before[i] && out@[j] == before[j - 1]);
                    if j - 1 > p {
                        lemma_chars_le_trans(
                            keys@[k as int]@,
                            keys@[before[p as int] as int]@,
                            keys@[before[j - 1] as int]@,
                        );
                    }
                    lemma_chars_le_trans(
                        keys@[before[i] as int]@,
                        keys@[k as int]@,
                        keys@[before[j - 1] as int]@,
                    );
                } else if i == p {
                    assert(out@[j] == before[j - 1]);
                    if j - 1 > p {
                        lemma_chars_le_trans(
                            keys@[k as int]@,
                            keys@[before[p as int] as int]@,
                            keys@[before[j - 1] as int]@,
                        );
                    }
                } else {
                    assert(out@[i] == before[i - 1] && out@[j] == before[j - 1]);
                }
            }
        }
        k = k + 1;
    }
    assert forall|i: int, j: int| 0 <= i < j < out@.len() implies chars_le(
        str_lower(groups@[out@[i] as int].distro@),
        str_lower(groups@[out@[j] as int].distro@),
    ) by {
        assert(keys@[out@[i] as int]@ == str_lower(groups@[out@[i] as int].distro@));
        assert(keys@[out@[j] as int]@ == str_lower(groups@[out@[j] as int].distro@));
    }
    out
}


// ---------------------------------------------------------------------------
// Laws of the catalogue
// ---------------------------------------------------------------------------

/// Every entry of the media among `cs` is grouped under `key`, with the
/// readable name of `key`.
pub proof fn lemma_media_entries_key(
    nv: Seq<XmlNodeView>,
    name: Seq<char>,
    key: Seq<char>,
    version: Option<Seq<char>>,
    vars: Seq<(Seq<char>, Seq<char>)>,
    cs: Seq<usize>,
)
    ensures
        forall|k: int|
            0 <= k < media_entries(nv, name, key, version, vars, cs).len() ==> {
                let e = #[trigger] media_entries(nv, name, key, version, vars, cs)[k];
                e.key == key && e.distro == pretty_distro_spec(key)
            },
    decreases cs.len(),
{
    if cs.len() > 0 {
        lemma_media_entries_key(nv, name, key, version, vars, cs.drop_last());
    }
}

/// A release is grouped by its `distro` when it names one, else by its
/// `family`, else by its own name: every entry of the `os` element `i`
/// has that key (the element's text, trimmed), and its distro is the
/// readable name of that key.
pub proof fn lemma_os_entries_key(nv: Seq<XmlNodeView>, i: int)
    ensures
        forall|k: int|
            0 <= k < os_entries(nv, i).len() ==> {
                let e = #[trigger] os_entries(nv, i)[k];
                &&& child_text_spec(nv, i, "distro"@) matches Some(d) ==> e.key == d
                &&& child_text_spec(nv, i, "distro"@) is None ==> (child_text_spec(
                    nv,
                    i,
                    "family"@,
                ) matches Some(f) ==> e.key == f)
                &&& child_text_spec(nv, i, "distro"@) is None && child_text_spec(nv, i, "family"@)
                    is None ==> Some(e.key) == child_text_spec(nv, i, "name"@)
                &&& e.distro == pretty_distro_spec(e.key)
            },
{
    let name = match child_text_spec(nv, i, "name"@) {
        Some(n) => n,
        None => Seq::empty(),
    };
    if name.len() > 0 {
        let key = match child_text_spec(nv, i, "distro"@) {
            Some(d) => d,
            None => match child_text_spec(nv, i, "family"@) {
                Some(f) => f,
                None => name,
            },
        };
        lemma_media_entries_key(
            nv,
            name,
            key,
            child_text_spec(nv, i, "version"@),
            variant_pairs(nv, nv[i].children),
            nv[i].children,
        );
    }
}

/// Every entry of the catalogue of the first `n` nodes comes from an `os`
/// element among them, and is grouped by that element's `distro`, else its
/// `family`, else its name.
pub proof fn lemma_catalog_keys(nv: Seq<XmlNodeView>, n: int)
    ensures
        forall|k: int|
            0 <= k < catalog_spec(nv, n).len() ==> exists|i: int|
                0 <= i < n && nv[i].element && nv[i].tag == "os"@ && {
                    let e = #[trigger] catalog_spec(nv, n)[k];
                    &&& child_text_spec(nv, i, "distro"@) matches Some(d) ==> e.key == d
                    &&& child_text_spec(nv, i, "distro"@) is None ==> (child_text_spec(
                        nv,
                        i,
                        "family"@,
                    ) matches Some(f) ==> e.key == f)
                    &&& child_text_spec(nv, i, "distro"@) is None && child_text_spec(
                        nv,
                        i,
                        "family"@,
                    ) is None ==> Some(e.key) == child_text_spec(nv, i, "name"@)
                },
    decreases n,
{
    if n > 0 {
        lemma_catalog_keys(nv, n - 1);
        let p = catalog_spec(nv, n - 1);
        if nv[n - 1].element && nv[n - 1].tag == "os"@ {
            lemma_os_entries_key(nv, n - 1);
            let q = os_entries(nv, n - 1);
            assert forall|k: int| 0 <= k < catalog_spec(nv, n).len() implies exists|i: int|
                0 <= i < n && nv[i].element && nv[i].tag == "os"@ && {
                    let e = #[trigger] catalog_spec(nv, n)[k];
                    &&& child_text_spec(nv, i, "distro"@) matches Some(d) ==> e.key == d
                    &&& child_text_spec(nv, i, "distro"@) is None ==> (child_text_spec(
                        nv,
                        i,
                        "family"@,
                    ) matches Some(f) ==> e.key == f)
                    &&& child_text_spec(nv, i, "distro"@) is None && child_text_spec(
                        nv,
                        i,
                        "family"@,
                    ) is None ==> Some(e.key) == child_text_spec(nv, i, "name"@)
                } by {
                if k < p.len() {
                    assert(catalog_spec(nv, n)[k] == p[k]);
                } else {
                    assert(catalog_spec(nv, n)[k] == q[k - p.len()]);
                    assert(q[k - p.len()] == os_entries(nv, n - 1)[k - p.len()]);
                }
            }
        }
    }
}

} // verus!

