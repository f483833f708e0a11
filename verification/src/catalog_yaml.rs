//! A canonical text form for freshly synthesized catalog descriptors: a
//! fixed line layout that the crate both writes and reads back, with a
//! proved round trip. Existing descriptor files in other valid layouts are
//! decoded by the surrounding program instead.

use vstd::prelude::*;
use vstd::string::StrSliceExecFns;
use vstd::string::StringExecFns;

use crate::backstage::CatalogInfo;
use crate::backstage::CatalogInfoMetadata;
use crate::backstage::CatalogInfoMetadataLink;
use crate::backstage::CatalogInfoSpec;
use crate::strutil::matches_at;
use crate::strutil::split_lines;
use crate::strutil::split_lines_spec;
use crate::strutil::lemma_split_lines_line;

use std::collections::BTreeMap;

verus! {

/// The text of every field of a descriptor, one sequence per field.
#[verifier::ext_equal]
pub ghost struct CatalogView {
    /// The api version of the descriptor schema.
    pub api_version: Seq<char>,
    /// The descriptor kind.
    pub kind: Seq<char>,
    /// The name of the entity.
    pub name: Seq<char>,
    /// The description of the entity.
    pub description: Seq<char>,
    /// The lifecycle of the entity.
    pub lifecycle: Seq<char>,
    /// The owner of the entity.
    pub owner: Seq<char>,
    /// The type of the entity.
    pub type_: Seq<char>,
    /// The system the entity belongs to.
    pub system: Seq<char>,
}

/// The field texts of a descriptor whose collections are empty and whose
/// system is set.
pub open spec fn catalog_view(c: CatalogInfo) -> CatalogView {
    CatalogView {
        api_version: c.api_version@,
        kind: c.kind@,
        name: c.metadata.name@,
        description: c.metadata.description@,
        lifecycle: c.spec_.lifecycle@,
        owner: c.spec_.owner@,
        type_: c.spec_.type_@,
        system: c.spec_.system->0@,
    }
}

/// A descriptor in the shape synthesis produces: empty annotation and tag
/// maps, no links, no dependencies yet, and a system set.
pub open spec fn is_canonical_shape(c: CatalogInfo) -> bool {
    &&& c.metadata.annotations@ == Map::<String, String>::empty()
    &&& c.metadata.tags@ == Map::<String, String>::empty()
    &&& c.metadata.links@ == Seq::<CatalogInfoMetadataLink>::empty()
    &&& c.spec_.system is Some
    &&& c.spec_.depends_on@ == Seq::<String>::empty()
}

/// One `key: value` line of the canonical text, newline included.
pub open spec fn yaml_line(key: Seq<char>, val: Seq<char>) -> Seq<char> {
    key + val + seq!['\n']
}

/// The canonical text of a descriptor: a fixed order of `key: value` lines,
/// with the empty collections written literally.
pub open spec fn spec_catalog_yaml(v: CatalogView) -> Seq<char> {
    yaml_line("apiVersion: "@, v.api_version) + (yaml_line("kind: "@, v.kind) + (yaml_line(
        "metadata:"@,
        Seq::<char>::empty(),
    ) + (yaml_line("  name: "@, v.name) + (yaml_line("  description: "@, v.description) + (
    yaml_line("  annotations: {}"@, Seq::<char>::empty()) + (yaml_line(
        "  tags: {}"@,
        Seq::<char>::empty(),
    ) + (yaml_line("  links: []"@, Seq::<char>::empty()) + (yaml_line(
        "spec:"@,
        Seq::<char>::empty(),
    ) + (yaml_line("  lifecycle: "@, v.lifecycle) + (yaml_line("  owner: "@, v.owner) + (
    yaml_line("  type: "@, v.type_) + (yaml_line("  system: "@, v.system) + yaml_line(
        "  dependsOn: []"@,
        Seq::<char>::empty(),
    )))))))))))))
}

/// The value on line `l` when the line starts with `key`.
pub open spec fn val_after(l: Seq<char>, key: Seq<char>) -> Option<Seq<char>> {
    if l.len() >= key.len() && l.subrange(0, key.len() as int) == key {
        Some(l.subrange(key.len() as int, l.len() as int))
    } else {
        None
    }
}

/// The descriptor field texts read back from a canonical text, when the
/// text has exactly the canonical layout.
pub open spec fn spec_parse_catalog(s: Seq<char>) -> Option<CatalogView> {
    let ls = split_lines_spec(s);
    if ls.len() == 15 && val_after(ls[0], "apiVersion: "@) is Some && val_after(
        ls[1],
        "kind: "@,
    ) is Some && ls[2] == "metadata:"@ && val_after(ls[3], "  name: "@) is Some && val_after(
        ls[4],
        "  description: "@,
    ) is Some && ls[5] == "  annotations: {}"@ && ls[6] == "  tags: {}"@ && ls[7]
        == "  links: []"@ && ls[8] == "spec:"@ && val_after(ls[9], "  lifecycle: "@) is Some
        && val_after(ls[10], "  owner: "@) is Some && val_after(ls[11], "  type: "@) is Some
        && val_after(ls[12], "  system: "@) is Some && ls[13] == "  dependsOn: []"@ && ls[14]
        == Seq::<char>::empty() {
        Some(
            CatalogView {
                api_version: val_after(ls[0], "apiVersion: "@)->0,
                kind: val_after(ls[1], "kind: "@)->0,
                name: val_after(ls[3], "  name: "@)->0,
                description: val_after(ls[4], "  description: "@)->0,
                lifecycle: val_after(ls[9], "  lifecycle: "@)->0,
                owner: val_after(ls[10], "  owner: "@)->0,
                type_: val_after(ls[11], "  type: "@)->0,
                system: val_after(ls[12], "  system: "@)->0,
            },
        )
    } else {
        None
    }
}

fn exec_yaml_line(key: &str, val: &str) -> (r: String)
    ensures
        r@ == yaml_line(key@, val@),
{
    proof {
        reveal_strlit("\n");
        assert("\n"@ =~= seq!['\n']);
    }
    let mut r = String::from_str(key);
    r.append(val);
    r.append("\n");
    r
}

/// Writes a descriptor of the synthesized shape in the canonical text form.
pub fn encode_catalog_info(c: &CatalogInfo) -> (r: String)
    requires
        is_canonical_shape(*c),
    ensures
        r@ == spec_catalog_yaml(catalog_view(*c)),
{
    let system = match &c.spec_.system {
        Some(s) => s.as_str(),
        None => "",
    };
    let l13 = exec_yaml_line("  dependsOn: []", "");
    let l12 = exec_yaml_line("  system: ", system);
    let l11 = exec_yaml_line("  type: ", c.spec_.type_.as_str());
    let l10 = exec_yaml_line("  owner: ", c.spec_.owner.as_str());
    let l9 = exec_yaml_line("  lifecycle: ", c.spec_.lifecycle.as_str());
    let l8 = exec_yaml_line("spec:", "");
    let l7 = exec_yaml_line("  links: []", "");
    let l6 = exec_yaml_line("  tags: {}", "");
    let l5 = exec_yaml_line("  annotations: {}", "");
    let l4 = exec_yaml_line("  description: ", c.metadata.description.as_str());
    let l3 = exec_yaml_line("  name: ", c.metadata.name.as_str());
    let l2 = exec_yaml_line("metadata:", "");
    let l1 = exec_yaml_line("kind: ", c.kind.as_str());
    let l0 = exec_yaml_line("apiVersion: ", c.api_version.as_str());
    proof {
        reveal_strlit("");
        assert(""@ =~= Seq::<char>::empty());
    }
    let mut acc = l13;
    acc = l12.concat(acc.as_str());
    acc = l11.concat(acc.as_str());
    acc = l10.concat(acc.as_str());
    acc = l9.concat(acc.as_str());
    acc = l8.concat(acc.as_str());
    acc = l7.concat(acc.as_str());
    acc = l6.concat(acc.as_str());
    acc = l5.concat(acc.as_str());
    acc = l4.concat(acc.as_str());
    acc = l3.concat(acc.as_str());
    acc = l2.concat(acc.as_str());
    acc = l1.concat(acc.as_str());
    acc = l0.concat(acc.as_str());
    acc
}

fn strip_key(l: &String, key: &str) -> (r: Option<String>)
    ensures
        match r {
            Some(v) => val_after(l@, key@) == Some(v@),
            None => val_after(l@, key@) is None,
        },
{
    let n = l.as_str().unicode_len();
    let m = key.unicode_len();
    if n >= m && matches_at(l.as_str(), 0, key) {
        Some(String::from_str(l.as_str().substring_char(m, n)))
    } else {
        None
    }
}

fn line_is(l: &String, expect: &str) -> (r: bool)
    ensures
        r == (l@ == expect@),
{
    l.eq(&String::from_str(expect))
}

/// Reads a descriptor back from a canonical text, when the text has exactly
/// the canonical layout; everything not of that layout is refused.
pub fn decode_catalog_info(s: &str) -> (r: Option<CatalogInfo>)
    ensures
        match r {
            Some(c) => {
                &&& spec_parse_catalog(s@) == Some(catalog_view(c))
                &&& is_canonical_shape(c)
            },
            None => spec_parse_catalog(s@) is None,
        },
{
    let lines = split_lines(s);
    let ghost ls = split_lines_spec(s@);
    if lines.len() != 15 {
        return None;
    }
    let api_version = match strip_key(&lines[0], "apiVersion: ") {
        Some(x) => x,
        None => {
            return None;
        },
    };
    let kind = match strip_key(&lines[1], "kind: ") {
        Some(x) => x,
        None => {
            return None;
        },
    };
    if !line_is(&lines[2], "metadata:") {
        return None;
    }
    let name = match strip_key(&lines[3], "  name: ") {
        Some(x) => x,
        None => {
            return None;
        },
    };
    let description = match strip_key(&lines[4], "  description: ") {
        Some(x) => x,
        None => {
            return None;
        },
    };
    if !line_is(&lines[5], "  annotations: {}") {
        return None;
    }
    if !line_is(&lines[6], "  tags: {}") {
        return None;
    }
    if !line_is(&lines[7], "  links: []") {
        return None;
    }
    if !line_is(&lines[8], "spec:") {
        return None;
    }
    let lifecycle = match strip_key(&lines[9], "  lifecycle: ") {
        Some(x) => x,
        None => {
            return None;
        },
    };
    let owner = match strip_key(&lines[10], "  owner: ") {
        Some(x) => x,
        None => {
            return None;
        },
    };
    let type_ = match strip_key(&lines[11], "  type: ") {
        Some(x) => x,
        None => {
            return None;
        },
    };
    let system = match strip_key(&lines[12], "  system: ") {
        Some(x) => x,
        None => {
            return None;
        },
    };
    if !line_is(&lines[13], "  dependsOn: []") {
        return None;
    }
    if !lines[14].as_str().is_empty() {
        proof {
            assert(ls[14].len() != 0);
        }
        return None;
    }
    let c = CatalogInfo {
        api_version,
        kind,
        metadata: CatalogInfoMetadata {
            name,
            description,
            annotations: BTreeMap::new(),
            tags: BTreeMap::new(),
            links: Vec::new(),
        },
        spec_: CatalogInfoSpec {
            lifecycle,
            owner,
            type_,
            system: Some(system),
            depends_on: Vec::new(),
        },
    };
    proof {
        assert(ls[14] =~= Seq::<char>::empty());
        assert(spec_parse_catalog(s@) == Some(catalog_view(c))) by {
            assert(spec_parse_catalog(s@)->0 =~= catalog_view(c));
        }
    }
    Some(c)
}

/// Writing a descriptor in the canonical form and reading it back yields
/// the same field texts, as long as no field text holds a newline.
pub proof fn lemma_catalog_yaml_round_trip(v: CatalogView)
    requires
        forall|j: int| 0 <= j < v.api_version.len() ==> v.api_version[j] != '\n',
        forall|j: int| 0 <= j < v.kind.len() ==> v.kind[j] != '\n',
        forall|j: int| 0 <= j < v.name.len() ==> v.name[j] != '\n',
        forall|j: int| 0 <= j < v.description.len() ==> v.description[j] != '\n',
        forall|j: int| 0 <= j < v.lifecycle.len() ==> v.lifecycle[j] != '\n',
        forall|j: int| 0 <= j < v.owner.len() ==> v.owner[j] != '\n',
        forall|j: int| 0 <= j < v.type_.len() ==> v.type_[j] != '\n',
        forall|j: int| 0 <= j < v.system.len() ==> v.system[j] != '\n',
    ensures
        spec_parse_catalog(spec_catalog_yaml(v)) == Some(v),
{
    reveal_strlit("apiVersion: ");
    reveal_strlit("kind: ");
    reveal_strlit("metadata:");
    reveal_strlit("  name: ");
    reveal_strlit("  description: ");
    reveal_strlit("  annotations: {}");
    reveal_strlit("  tags: {}");
    reveal_strlit("  links: []");
    reveal_strlit("spec:");
    reveal_strlit("  lifecycle: ");
    reveal_strlit("  owner: ");
    reveal_strlit("  type: ");
    reveal_strlit("  system: ");
    reveal_strlit("  dependsOn: []");
    let a0 = "apiVersion: "@ + v.api_version;
    let a1 = "kind: "@ + v.kind;
    let a2 = "metadata:"@ + Seq::<char>::empty();
    let a3 = "  name: "@ + v.name;
    let a4 = "  description: "@ + v.description;
    let a5 = "  annotations: {}"@ + Seq::<char>::empty();
    let a6 = "  tags: {}"@ + Seq::<char>::empty();
    let a7 = "  links: []"@ + Seq::<char>::empty();
    let a8 = "spec:"@ + Seq::<char>::empty();
    let a9 = "  lifecycle: "@ + v.lifecycle;
    let a10 = "  owner: "@ + v.owner;
    let a11 = "  type: "@ + v.type_;
    let a12 = "  system: "@ + v.system;
    let a13 = "  dependsOn: []"@ + Seq::<char>::empty();
    let r13 = yaml_line("  dependsOn: []"@, Seq::<char>::empty());
    let r12 = yaml_line("  system: "@, v.system) + r13;
    let r11 = yaml_line("  type: "@, v.type_) + r12;
    let r10 = yaml_line("  owner: "@, v.owner) + r11;
    let r9 = yaml_line("  lifecycle: "@, v.lifecycle) + r10;
    let r8 = yaml_line("spec:"@, Seq::<char>::empty()) + r9;
    let r7 = yaml_line("  links: []"@, Seq::<char>::empty()) + r8;
    let r6 = yaml_line("  tags: {}"@, Seq::<char>::empty()) + r7;
    let r5 = yaml_line("  annotations: {}"@, Seq::<char>::empty()) + r6;
    let r4 = yaml_line("  description: "@, v.description) + r5;
    let r3 = yaml_line("  name: "@, v.name) + r4;
    let r2 = yaml_line("metadata:"@, Seq::<char>::empty()) + r3;
    let r1 = yaml_line("kind: "@, v.kind) + r2;
    let r0 = yaml_line("apiVersion: "@, v.api_version) + r1;
    let s = spec_catalog_yaml(v);
    assert(s == r0);
    assert(r0 =~= a0 + seq!['\n'] + r1);
    lemma_split_lines_line(a0, r1);
    assert(r1 =~= a1 + seq!['\n'] + r2);
    lemma_split_lines_line(a1, r2);
    assert(r2 =~= a2 + seq!['\n'] + r3);
    lemma_split_lines_line(a2, r3);
    assert(r3 =~= a3 + seq!['\n'] + r4);
    lemma_split_lines_line(a3, r4);
    assert(r4 =~= a4 + seq!['\n'] + r5);
    lemma_split_lines_line(a4, r5);
    assert(r5 =~= a5 + seq!['\n'] + r6);
    lemma_split_lines_line(a5, r6);
    assert(r6 =~= a6 + seq!['\n'] + r7);
    lemma_split_lines_line(a6, r7);
    assert(r7 =~= a7 + seq!['\n'] + r8);
    lemma_split_lines_line(a7, r8);
    assert(r8 =~= a8 + seq!['\n'] + r9);
    lemma_split_lines_line(a8, r9);
    assert(r9 =~= a9 + seq!['\n'] + r10);
    lemma_split_lines_line(a9, r10);
    assert(r10 =~= a10 + seq!['\n'] + r11);
    lemma_split_lines_line(a10, r11);
    assert(r11 =~= a11 + seq!['\n'] + r12);
    lemma_split_lines_line(a11, r12);
    assert(r12 =~= a12 + seq!['\n'] + r13);
    lemma_split_lines_line(a12, r13);
    assert(r13 =~= a13 + seq!['\n'] + Seq::<char>::empty());
    lemma_split_lines_line(a13, Seq::<char>::empty());
    let ls = split_lines_spec(s);
    assert(ls =~= seq![a0] + (seq![a1] + (seq![a2] + (seq![a3] + (seq![a4] + (seq![a5] + (seq![
        a6,
    ] + (seq![a7] + (seq![a8] + (seq![a9] + (seq![a10] + (seq![a11] + (seq![a12] + (seq![a13]
        + seq![Seq::<char>::empty()]))))))))))))));
    assert(ls.len() == 15);
    assert(ls[0] == a0);
    assert(ls[1] == a1);
    assert(ls[2] == a2);
    assert(ls[3] == a3);
    assert(ls[4] == a4);
    assert(ls[5] == a5);
    assert(ls[6] == a6);
    assert(ls[7] == a7);
    assert(ls[8] == a8);
    assert(ls[9] == a9);
    assert(ls[10] == a10);
    assert(ls[11] == a11);
    assert(ls[12] == a12);
    assert(ls[13] == a13);
    assert(ls[14] == Seq::<char>::empty());
    assert(a2 =~= "metadata:"@);
    assert(a5 =~= "  annotations: {}"@);
    assert(a6 =~= "  tags: {}"@);
    assert(a7 =~= "  links: []"@);
    assert(a8 =~= "spec:"@);
    assert(a13 =~= "  dependsOn: []"@);
    lemma_val_after_concat("apiVersion: "@, v.api_version);
    lemma_val_after_concat("kind: "@, v.kind);
    lemma_val_after_concat("  name: "@, v.name);
    lemma_val_after_concat("  description: "@, v.description);
    lemma_val_after_concat("  lifecycle: "@, v.lifecycle);
    lemma_val_after_concat("  owner: "@, v.owner);
    lemma_val_after_concat("  type: "@, v.type_);
    lemma_val_after_concat("  system: "@, v.system);
    assert(spec_parse_catalog(s) is Some);
    assert(spec_parse_catalog(s)->0 =~= v);
}

/// Every descriptor the synthesis produces has the canonical shape, so it
/// can be written in the canonical text form.
pub proof fn lemma_new_catalog_is_canonical(name: Seq<char>, c: CatalogInfo)
    requires
        crate::backstage::is_new_catalog_info(name, c),
    ensures
        is_canonical_shape(c),
{
}

proof fn lemma_val_after_concat(key: Seq<char>, val: Seq<char>)
    ensures
        val_after(key + val, key) == Some(val),
{
    let l = key + val;
    assert(l.subrange(0, key.len() as int) =~= key);
    assert(l.subrange(key.len() as int, l.len() as int) =~= val);
}

} // verus!
