//! The USB id database (`usb.ids`): vendor, product, class, subclass and
//! protocol names, read from the text of the database.
//!
//! [`parse_contents`] reads the database line by line. Every line either is
//! skipped, names a class or a vendor, or, depending on the line that named
//! the last class, subclass, vendor or product before it, names a subclass,
//! a protocol or a product.
use std::collections::HashMap;
use std::sync::Arc;
use vstd::prelude::*;

use crate::text::{
    chars_of, contains, contains_at, digits, find_char, first_index_of, has_prefix_at, pad_left,
    parse_uint, parse_uint_at, push_padded_digits, push_str, starts_with, string_from_chars, strip_cr,
    trim, trim_bounds, ParseIntError, digits_value, is_digit, lemma_first_index_of, lemma_first_index_of_some,
};

verus! {

broadcast use vstd::std_specs::hash::group_hash_axioms;

/// The contents of a names database, as maps from keys to names.
///
/// Products, subclasses and protocols are keyed by the packed keys
/// [`product_key`], [`subclass_key`] and [`protocol_key`].
pub struct NamesModel {
    pub vendor: Map<u16, Seq<char>>,
    pub product: Map<u32, Seq<char>>,
    pub class: Map<u8, Seq<char>>,
    pub subclass: Map<u16, Seq<char>>,
    pub protocol: Map<u32, Seq<char>>,
}

/// The packed key of a product of a vendor.
pub open spec fn product_key(vendor: u16, product: u16) -> u32 {
    (vendor * 0x10000 + product) as u32
}

/// The packed key of a subclass of a class.
pub open spec fn subclass_key(class: u8, subclass: u8) -> u16 {
    (class * 0x100 + subclass) as u16
}

/// The packed key of a protocol of a subclass of a class.
pub open spec fn protocol_key(class: u8, subclass: u8, protocol: u8) -> u32 {
    (class * 0x10000 + subclass * 0x100 + protocol) as u32
}

/// Views the values of a map of strings as character sequences.
pub open spec fn text_map<K>(m: Map<K, String>) -> Map<K, Seq<char>> {
    m.map_values(|s: String| s@)
}

#[derive(Debug)]
struct NamesInner {
    vendor: HashMap<u16, String>,
    product: HashMap<u32, String>,
    class: HashMap<u8, String>,
    subclass: HashMap<u16, String>,
    protocol: HashMap<u32, String>,
}

impl View for NamesInner {
    type V = NamesModel;

    closed spec fn view(&self) -> NamesModel {
        NamesModel {
            vendor: text_map(self.vendor@),
            product: text_map(self.product@),
            class: text_map(self.class@),
            subclass: text_map(self.subclass@),
            protocol: text_map(self.protocol@),
        }
    }
}

/// A names database.
pub struct Names {
    inner: Arc<NamesInner>,
}

impl View for Names {
    type V = NamesModel;

    closed spec fn view(&self) -> NamesModel {
        (*self.inner)@
    }
}

/// What a lookup of `key` in `m` gives.
pub open spec fn lookup<K>(m: Map<K, Seq<char>>, key: K, r: Option<&str>) -> bool {
    match r {
        Some(s) => m.contains_key(key) && s@ == m[key],
        None => !m.contains_key(key),
    }
}

fn get_text<'a, K: std::hash::Hash + Eq>(m: &'a HashMap<K, String>, key: &K) -> (r: Option<&'a str>)
    requires
        vstd::std_specs::hash::obeys_key_model::<K>(),
    ensures
        lookup(text_map(m@), *key, r),
{
    match m.get(key) {
        Some(s) => Some(s.as_str()),
        None => None,
    }
}

/// The name in `m` at `key`, or `default` when there is none.
pub open spec fn name_or(m: Map<u32, Seq<char>>, key: u32, default: Seq<char>) -> Seq<char> {
    if m.contains_key(key) {
        m[key]
    } else {
        default
    }
}

/// How a product is shown: the vendor's name, ` : `, the product's name,
/// and the two ids as four hex digits each, in brackets; a name that is not
/// known is `unknown vendor` or `unknown product`.
pub open spec fn spec_product_display(n: NamesModel, vendor: u16, product: u16) -> Seq<char> {
    let v = if n.vendor.contains_key(vendor) {
        n.vendor[vendor]
    } else {
        "unknown vendor"@
    };
    let p = name_or(n.product, product_key(vendor, product), "unknown product"@);
    v + " : "@ + p + " ("@ + pad_left(digits(vendor as nat, 16), 4, '0') + ":"@ + pad_left(
        digits(product as nat, 16),
        4,
        '0',
    ) + ")"@
}

impl Names {
    /// The name of a vendor.
    pub fn vendor(&self, vendor: u16) -> (r: Option<&str>)
        ensures
            lookup(self@.vendor, vendor, r),
    {
        self.inner.vendor(vendor)
    }

    /// The name of a product of a vendor.
    pub fn product(&self, vendor: u16, product: u16) -> (r: Option<&str>)
        ensures
            lookup(self@.product, product_key(vendor, product), r),
    {
        self.inner.product(vendor, product)
    }

    /// The vendor and product of a device as they are shown.
    pub fn product_display(&self, vendor: u16, product: u16) -> (r: String)
        ensures
            r@ == spec_product_display(self@, vendor, product),
    {
        let mut out = String::new();
        match self.vendor(vendor) {
            Some(v) => push_str(&mut out, v),
            None => push_str(&mut out, "unknown vendor"),
        }
        push_str(&mut out, " : ");
        match self.product(vendor, product) {
            Some(p) => push_str(&mut out, p),
            None => push_str(&mut out, "unknown product"),
        }
        push_str(&mut out, " (");
        push_padded_digits(&mut out, vendor as u32, 16, 4);
        push_str(&mut out, ":");
        push_padded_digits(&mut out, product as u32, 16, 4);
        push_str(&mut out, ")");
        out
    }

    /// The name of a device class.
    pub fn class(&self, class: u8) -> (r: Option<&str>)
        ensures
            lookup(self@.class, class, r),
    {
        self.inner.class(class)
    }

    /// The name of a subclass of a device class.
    pub fn subclass(&self, class: u8, subclass: u8) -> (r: Option<&str>)
        ensures
            lookup(self@.subclass, subclass_key(class, subclass), r),
    {
        self.inner.subclass(class, subclass)
    }

    /// The name of a protocol of a subclass of a device class.
    pub fn protocol(&self, class: u8, subclass: u8, protocol: u8) -> (r: Option<&str>)
        ensures
            lookup(self@.protocol, protocol_key(class, subclass, protocol), r),
    {
        self.inner.protocol(class, subclass, protocol)
    }
}

impl NamesInner {
    pub fn new() -> (r: Self)
        ensures
            r@.vendor == Map::<u16, Seq<char>>::empty(),
            r@.product == Map::<u32, Seq<char>>::empty(),
            r@.class == Map::<u8, Seq<char>>::empty(),
            r@.subclass == Map::<u16, Seq<char>>::empty(),
            r@.protocol == Map::<u32, Seq<char>>::empty(),
    {
        let r = Self {
            vendor: HashMap::new(),
            product: HashMap::new(),
            class: HashMap::new(),
            subclass: HashMap::new(),
            protocol: HashMap::new(),
        };
        assert(r@.vendor =~= Map::<u16, Seq<char>>::empty());
        assert(r@.product =~= Map::<u32, Seq<char>>::empty());
        assert(r@.class =~= Map::<u8, Seq<char>>::empty());
        assert(r@.subclass =~= Map::<u16, Seq<char>>::empty());
        assert(r@.protocol =~= Map::<u32, Seq<char>>::empty());
        r
    }

    pub fn vendor(&self, vendor: u16) -> (r: Option<&str>)
        ensures
            lookup(self@.vendor, vendor, r),
    {
        let key = VendorKey(vendor);
        get_text(&self.vendor, &key.0)
    }

    pub fn product(&self, vendor: u16, product: u16) -> (r: Option<&str>)
        ensures
            lookup(self@.product, product_key(vendor, product), r),
    {
        let key = ProductKey { vendor, product };
        get_text(&self.product, &key.packed())
    }

    pub fn class(&self, class: u8) -> (r: Option<&str>)
        ensures
            lookup(self@.class, class, r),
    {
        let key = ClassKey(class);
        get_text(&self.class, &key.0)
    }

    pub fn subclass(&self, class: u8, subclass: u8) -> (r: Option<&str>)
        ensures
            lookup(self@.subclass, subclass_key(class, subclass), r),
    {
        let key = SubclassKey { class, subclass };
        get_text(&self.subclass, &key.packed())
    }

    pub fn protocol(&self, class: u8, subclass: u8, protocol: u8) -> (r: Option<&str>)
        ensures
            lookup(self@.protocol, protocol_key(class, subclass, protocol), r),
    {
        let key = ProtocolKey { class, subclass, protocol };
        get_text(&self.protocol, &key.packed())
    }
}

/// What the last naming line was, which decides how an indented line is read.
#[derive(Debug, Clone, Copy, PartialEq, Eq, Structural)]
pub enum LastState {
    Start,
    Lang,
    Class(u8),
    Subclass(u8, u8),
    Vendor(u16),
    Product(u16, u16),
    Hut,
}

#[derive(Debug, Clone, Copy, PartialEq, Eq, Structural)]
struct VendorKey(u16);

#[derive(Debug, Clone, Copy, PartialEq, Eq, Structural)]
struct ProductKey {
    vendor: u16,
    product: u16,
}

impl ProductKey {
    fn packed(&self) -> (r: u32)
        ensures
            r == product_key(self.vendor, self.product),
    {
        self.vendor as u32 * 0x10000 + self.product as u32
    }

}

#[derive(Debug, Clone, Copy, PartialEq, Eq, Structural)]
struct ClassKey(u8);

#[derive(Debug, Clone, Copy, PartialEq, Eq, Structural)]
struct SubclassKey {
    class: u8,
    subclass: u8,
}

impl SubclassKey {
    fn packed(&self) -> (r: u16)
        ensures
            r == subclass_key(self.class, self.subclass),
    {
        self.class as u16 * 0x100 + self.subclass as u16
    }

}

#[derive(Debug, Clone, Copy, PartialEq, Eq, Structural)]
struct ProtocolKey {
    class: u8,
    subclass: u8,
    protocol: u8,
}

impl ProtocolKey {
    fn packed(&self) -> (r: u32)
        ensures
            r == protocol_key(self.class, self.subclass, self.protocol),
    {
        self.class as u32 * 0x10000 + self.subclass as u32 * 0x100 + self.protocol as u32
    }

}

/// Whether a line carries nothing for the database: empty lines, comments,
/// and the sections of the file that this database does not keep.
pub open spec fn skippable(line: Seq<char>) -> bool {
    ||| line.len() == 0
    ||| starts_with(line, "#"@)
    ||| starts_with(line, "PHYSDES "@)
    ||| starts_with(line, "PHY "@)
    ||| starts_with(line, "BIAS "@)
    ||| starts_with(line, "AT "@)
    ||| starts_with(line, "HCC "@)
    ||| starts_with(line, "HID "@)
    ||| starts_with(line, "R "@)
    ||| starts_with(line, "VT"@)
}

/// A key and a text: the decimal key before the first space of `line`
/// (no greater than `max`), and the rest of the line after that space, trimmed.
pub open spec fn key_and_text(line: Seq<char>, max: int) -> Option<(int, Seq<char>)> {
    match first_index_of(line, ' ') {
        None => None,
        Some(i) => match parse_uint(line.subrange(0, i), max) {
            Ok(k) => Some((k, trim(line.subrange(i + 1, line.len() as int)))),
            Err(_) => None,
        },
    }
}

/// `line` without `prefix`, when it begins with it.
pub open spec fn strip_prefix(line: Seq<char>, prefix: Seq<char>) -> Option<Seq<char>> {
    if starts_with(line, prefix) {
        Some(line.subrange(prefix.len() as int, line.len() as int))
    } else {
        None
    }
}

/// The key and text of a line behind `prefix`.
pub open spec fn entry(line: Seq<char>, prefix: Seq<char>, max: int) -> Option<(int, Seq<char>)> {
    match strip_prefix(line, prefix) {
        Some(rest) => key_and_text(rest, max),
        None => None,
    }
}

/// The state while reading a database: what has been read so far, and the last naming line.
pub struct ParseState {
    pub names: NamesModel,
    pub last: LastState,
}

pub open spec fn empty_model() -> NamesModel {
    NamesModel {
        vendor: Map::empty(),
        product: Map::empty(),
        class: Map::empty(),
        subclass: Map::empty(),
        protocol: Map::empty(),
    }
}

/// Reading one line.
pub open spec fn step(st: ParseState, line: Seq<char>) -> ParseState {
    let n = st.names;
    if skippable(line) {
        st
    } else if contains(line, "L "@) {
        ParseState { last: LastState::Lang, ..st }
    } else if let Some((k, t)) = entry(line, "C "@, 0xff) {
        ParseState {
            names: NamesModel { class: n.class.insert(k as u8, t), ..n },
            last: LastState::Class(k as u8),
        }
    } else if let Some((k, t)) = key_and_text(line, 0xffff) {
        ParseState {
            names: NamesModel { vendor: n.vendor.insert(k as u16, t), ..n },
            last: LastState::Vendor(k as u16),
        }
    } else if contains(line, "HUT "@) {
        ParseState { last: LastState::Hut, ..st }
    } else {
        match st.last {
            LastState::Class(c) => match entry(line, "\t"@, 0xff) {
                Some((k, t)) => ParseState {
                    names: NamesModel { subclass: n.subclass.insert(subclass_key(c, k as u8), t), ..n },
                    last: LastState::Subclass(c, k as u8),
                },
                None => st,
            },
            LastState::Subclass(c, sc) => match entry(line, "\t"@, 0xff) {
                Some((k, t)) => ParseState {
                    names: NamesModel { subclass: n.subclass.insert(subclass_key(c, k as u8), t), ..n },
                    last: LastState::Subclass(c, k as u8),
                },
                None => match entry(line, "\t\t"@, 0xff) {
                    Some((k, t)) => ParseState {
                        names: NamesModel {
                            protocol: n.protocol.insert(protocol_key(c, sc, k as u8), t),
                            ..n
                        },
                        ..st
                    },
                    None => st,
                },
            },
            LastState::Vendor(v) | LastState::Product(v, _) => match entry(line, "\t"@, 0xffff) {
                Some((k, t)) => ParseState {
                    names: NamesModel { product: n.product.insert(product_key(v, k as u16), t), ..n },
                    last: LastState::Product(v, k as u16),
                },
                None => st,
            },
            _ => st,
        }
    }
}

/// Reading the lines of `text` (as `str::lines` splits them) from state `st`.
pub open spec fn run(st: ParseState, text: Seq<char>) -> ParseState
    decreases text.len(),
{
    if text.len() == 0 {
        st
    } else {
        match first_index_of(text, '\n') {
            Some(i) => if 0 <= i < text.len() {
                run(step(st, strip_cr(text.subrange(0, i))), text.subrange(i + 1, text.len() as int))
            } else {
                st
            },
            None => step(st, text),
        }
    }
}

/// The database that the text of a names file describes.
pub open spec fn parsed(text: Seq<char>) -> NamesModel {
    run(ParseState { names: empty_model(), last: LastState::Start }, text).names
}


/// A line that begins with a tab is neither skipped, nor a class line, nor a
/// vendor line.
proof fn lemma_tab_line(line: Seq<char>)
    requires
        line.len() > 0,
        line[0] == '\t',
    ensures
        !skippable(line),
        entry(line, "C "@, 0xff) is None,
        forall|max: int| #[trigger] key_and_text(line, max) is None,
{
    reveal_strlit("#");
    reveal_strlit("PHYSDES ");
    reveal_strlit("PHY ");
    reveal_strlit("BIAS ");
    reveal_strlit("AT ");
    reveal_strlit("HCC ");
    reveal_strlit("HID ");
    reveal_strlit("R ");
    reveal_strlit("VT");
    reveal_strlit("C ");
    assert forall|p: Seq<char>| p.len() > 0 && p[0] != '\t' implies !starts_with(line, p) by {
        if starts_with(line, p) {
            assert(line.subrange(0, p.len() as int)[0] == p[0]);
        }
    }
    assert("#"@[0] == '#');
    assert("PHYSDES "@[0] == 'P');
    assert("PHY "@[0] == 'P');
    assert("BIAS "@[0] == 'B');
    assert("AT "@[0] == 'A');
    assert("HCC "@[0] == 'H');
    assert("HID "@[0] == 'H');
    assert("R "@[0] == 'R');
    assert("VT"@[0] == 'V');
    assert("C "@[0] == 'C');
    assert forall|max: int| #[trigger] key_and_text(line, max) is None by {
        lemma_first_index_of(line, ' ');
        if let Some(i) = first_index_of(line, ' ') {
            let w = line.subrange(0, i);
            assert(i > 0 && w[0] == '\t');
            reveal(parse_uint);
            assert(!is_digit(w[0]));
            assert(digits_value(w, 0, max) is Err);
        }
    }
}

/// Reading a text whose first line is `line` reads that line, then the
/// rest after its line break.
pub proof fn lemma_run_line(st: ParseState, line: Seq<char>, rest: Seq<char>)
    requires
        forall|j: int| 0 <= j < line.len() ==> line[j] != '\n',
    ensures
        run(st, line + "\n"@ + rest) == run(step(st, strip_cr(line)), rest),
{
    reveal_strlit("\n");
    let text = line + "\n"@ + rest;
    lemma_first_index_of_some(text, '\n', line.len() as int);
    assert(text.subrange(0, line.len() as int) =~= line);
    assert(text.subrange(line.len() as int + 1, text.len() as int) =~= rest);
}

/// After a class line or a subclass line, a line made of a tab, a key and a
/// name (that holds neither `L ` nor `HUT `, which the reader takes for the
/// starts of other sections) names a further subclass of the same class;
/// nothing else that was read changes.
pub proof fn lemma_subclass_line(st: ParseState, line: Seq<char>, k: int, t: Seq<char>)
    requires
        line.len() > 0,
        line[0] == '\t',
        entry(line, "\t"@, 0xff) == Some((k, t)),
        !contains(line, "L "@),
        !contains(line, "HUT "@),
    ensures
        match st.last {
            LastState::Class(c) | LastState::Subclass(c, _) => step(st, line) == ParseState {
                names: NamesModel { subclass: st.names.subclass.insert(subclass_key(c, k as u8), t), ..st.names },
                last: LastState::Subclass(c, k as u8),
            },
            _ => true,
        },
{
    lemma_tab_line(line);
    assert(key_and_text(line, 0xffff) is None);
}

/// After a subclass line, a line made of two tabs, a key and a name (that
/// holds neither `L ` nor `HUT `) names a protocol of that subclass; the
/// subclass stays the last one read.
pub proof fn lemma_protocol_line(st: ParseState, line: Seq<char>, k: int, t: Seq<char>)
    requires
        line.len() > 1,
        line[0] == '\t',
        line[1] == '\t',
        entry(line, "\t\t"@, 0xff) == Some((k, t)),
        !contains(line, "L "@),
        !contains(line, "HUT "@),
    ensures
        match st.last {
            LastState::Subclass(c, sc) => step(st, line) == ParseState {
                names: NamesModel { protocol: st.names.protocol.insert(protocol_key(c, sc, k as u8), t), ..st.names },
                last: st.last,
            },
            _ => true,
        },
{
    reveal_strlit("\t");
    lemma_tab_line(line);
    assert(key_and_text(line, 0xffff) is None);
    let rest = line.subrange(1, line.len() as int);
    assert(rest[0] == '\t');
    lemma_tab_line(rest);
    assert(key_and_text(rest, 0xff) is None);
    assert(starts_with(line, "\t"@)) by {
        assert(line.subrange(0, 1) =~= "\t"@);
    }
    assert(strip_prefix(line, "\t"@) == Some(rest));
}

/// A line that begins with `C `, a key and a name (and holds no `L `)
/// names a class; the subclass lines that follow belong to it.
pub proof fn lemma_class_line(st: ParseState, line: Seq<char>, k: int, t: Seq<char>)
    requires
        entry(line, "C "@, 0xff) == Some((k, t)),
        !contains(line, "L "@),
    ensures
        step(st, line) == (ParseState {
            names: NamesModel { class: st.names.class.insert(k as u8, t), ..st.names },
            last: LastState::Class(k as u8),
        }),
{
    reveal_strlit("#");
    reveal_strlit("PHYSDES ");
    reveal_strlit("PHY ");
    reveal_strlit("BIAS ");
    reveal_strlit("AT ");
    reveal_strlit("HCC ");
    reveal_strlit("HID ");
    reveal_strlit("R ");
    reveal_strlit("VT");
    reveal_strlit("C ");
    assert(starts_with(line, "C "@));
    assert(line[0] == 'C') by {
        assert(line.subrange(0, 2)[0] == line[0]);
    }
    assert forall|p: Seq<char>| p.len() > 0 && p[0] != 'C' implies !starts_with(line, p) by {
        if starts_with(line, p) {
            assert(line.subrange(0, p.len() as int)[0] == p[0]);
        }
    }
    assert("#"@[0] == '#');
    assert("PHYSDES "@[0] == 'P');
    assert("PHY "@[0] == 'P');
    assert("BIAS "@[0] == 'B');
    assert("AT "@[0] == 'A');
    assert("HCC "@[0] == 'H');
    assert("HID "@[0] == 'H');
    assert("R "@[0] == 'R');
    assert("VT"@[0] == 'V');
}

/// A line that begins with a decimal key and then a name (and holds no
/// `L `) names a vendor; the product lines that follow belong to it.
pub proof fn lemma_vendor_line(st: ParseState, line: Seq<char>, k: int, t: Seq<char>)
    requires
        line.len() > 0,
        is_digit(line[0]),
        key_and_text(line, 0xffff) == Some((k, t)),
        !contains(line, "L "@),
    ensures
        step(st, line) == (ParseState {
            names: NamesModel { vendor: st.names.vendor.insert(k as u16, t), ..st.names },
            last: LastState::Vendor(k as u16),
        }),
{
    reveal_strlit("#");
    reveal_strlit("PHYSDES ");
    reveal_strlit("PHY ");
    reveal_strlit("BIAS ");
    reveal_strlit("AT ");
    reveal_strlit("HCC ");
    reveal_strlit("HID ");
    reveal_strlit("R ");
    reveal_strlit("VT");
    reveal_strlit("C ");
    assert forall|p: Seq<char>| p.len() > 0 && !is_digit(p[0]) implies !starts_with(line, p) by {
        if starts_with(line, p) {
            assert(line.subrange(0, p.len() as int)[0] == p[0]);
        }
    }
    assert("#"@[0] == '#');
    assert("PHYSDES "@[0] == 'P');
    assert("PHY "@[0] == 'P');
    assert("BIAS "@[0] == 'B');
    assert("AT "@[0] == 'A');
    assert("HCC "@[0] == 'H');
    assert("HID "@[0] == 'H');
    assert("R "@[0] == 'R');
    assert("VT"@[0] == 'V');
    assert("C "@[0] == 'C');
}

/// A comment line changes nothing that was read.
pub proof fn lemma_comment_line(st: ParseState, line: Seq<char>)
    requires
        line.len() > 0,
        line[0] == '#',
    ensures
        step(st, line) == st,
{
    reveal_strlit("#");
    assert(line.subrange(0, 1) =~= "#"@);
}

/// Inside a section that is not kept (after a language line or a usage
/// table line) and before any naming line, an indented line names nothing.
pub proof fn lemma_indented_line_outside(st: ParseState, line: Seq<char>)
    requires
        st.last == LastState::Lang || st.last == LastState::Hut || st.last == LastState::Start,
        line.len() > 0,
        line[0] == '\t',
    ensures
        step(st, line).names == st.names,
{
    lemma_tab_line(line);
    assert(key_and_text(line, 0xffff) is None);
}

/// After a vendor line or a product line, a line made of a tab, a key and a
/// name (that holds neither `L ` nor `HUT `) names a product of that vendor.
pub proof fn lemma_product_line(st: ParseState, line: Seq<char>, k: int, t: Seq<char>)
    requires
        line.len() > 0,
        line[0] == '\t',
        entry(line, "\t"@, 0xffff) == Some((k, t)),
        !contains(line, "L "@),
        !contains(line, "HUT "@),
    ensures
        match st.last {
            LastState::Vendor(v) | LastState::Product(v, _) => step(st, line) == ParseState {
                names: NamesModel { product: st.names.product.insert(product_key(v, k as u16), t), ..st.names },
                last: LastState::Product(v, k as u16),
            },
            _ => true,
        },
{
    lemma_tab_line(line);
    assert(key_and_text(line, 0xffff) is None);
}

} // verus!

verus! {

/// The literal patterns that the reader looks for, as characters.
struct Patterns {
    hash: Vec<char>,
    physdes: Vec<char>,
    phy: Vec<char>,
    bias: Vec<char>,
    at: Vec<char>,
    hcc: Vec<char>,
    hid: Vec<char>,
    r: Vec<char>,
    vt: Vec<char>,
    lang: Vec<char>,
    hut: Vec<char>,
    class: Vec<char>,
    tab: Vec<char>,
    tab_tab: Vec<char>,
}

impl Patterns {
    spec fn wf(&self) -> bool {
        &&& self.hash@ == "#"@
        &&& self.physdes@ == "PHYSDES "@
        &&& self.phy@ == "PHY "@
        &&& self.bias@ == "BIAS "@
        &&& self.at@ == "AT "@
        &&& self.hcc@ == "HCC "@
        &&& self.hid@ == "HID "@
        &&& self.r@ == "R "@
        &&& self.vt@ == "VT"@
        &&& self.lang@ == "L "@
        &&& self.hut@ == "HUT "@
        &&& self.class@ == "C "@
        &&& self.tab@ == "\t"@
        &&& self.tab_tab@ == "\t\t"@
    }

    fn new() -> (r: Self)
        ensures
            r.wf(),
    {
        Patterns {
            hash: chars_of("#"),
            physdes: chars_of("PHYSDES "),
            phy: chars_of("PHY "),
            bias: chars_of("BIAS "),
            at: chars_of("AT "),
            hcc: chars_of("HCC "),
            hid: chars_of("HID "),
            r: chars_of("R "),
            vt: chars_of("VT"),
            lang: chars_of("L "),
            hut: chars_of("HUT "),
            class: chars_of("C "),
            tab: chars_of("\t"),
            tab_tab: chars_of("\t\t"),
        }
    }
}

/// Whether the line `s[from..to]` can be skipped.
fn can_skip(p: &Patterns, s: &[char], from: usize, to: usize) -> (r: bool)
    requires
        p.wf(),
        from <= to <= s@.len(),
    ensures
        r == skippable(s@.subrange(from as int, to as int)),
{
    from == to || has_prefix_at(s, from, to, p.hash.as_slice()) || has_prefix_at(
        s,
        from,
        to,
        p.physdes.as_slice(),
    ) || has_prefix_at(s, from, to, p.phy.as_slice()) || has_prefix_at(
        s,
        from,
        to,
        p.bias.as_slice(),
    ) || has_prefix_at(s, from, to, p.at.as_slice()) || has_prefix_at(
        s,
        from,
        to,
        p.hcc.as_slice(),
    ) || has_prefix_at(s, from, to, p.hid.as_slice()) || has_prefix_at(s, from, to, p.r.as_slice())
        || has_prefix_at(s, from, to, p.vt.as_slice())
}

/// The decimal key before the first space of `s[from..to]`, and the trimmed rest.
fn parse_value(s: &[char], from: usize, to: usize, max: u32) -> (r: Option<(u32, String)>)
    requires
        from <= to <= s@.len(),
    ensures
        match key_and_text(s@.subrange(from as int, to as int), max as int) {
            Some((k, t)) => r matches Some((k2, t2)) && k2 == k && t2@ == t,
            None => r is None,
        },
        r matches Some((k, _)) ==> k <= max,
{
    let ghost line = s@.subrange(from as int, to as int);
    match find_char(s, from, to, ' ') {
        None => {
            assert(first_index_of(line, ' ') is None);
            None
        },
        Some(i) => {
            assert(first_index_of(line, ' ') == Some(i - from));
            assert(line.subrange(0, i - from) =~= s@.subrange(from as int, i as int));
            assert(line.subrange(i - from + 1, line.len() as int) =~= s@.subrange(i + 1, to as int));
            match parse_uint_at(s, from, i, max) {
                Ok(k) => {
                    let (a, b) = trim_bounds(s, i + 1, to);
                    let text = string_from_chars(s, a, b);
                    assert(key_and_text(line, max as int) == Some((k as int, text@)));
                    Some((k, text))
                },
                Err(_) => {
                    assert(key_and_text(line, max as int) is None);
                    None
                },
            }
        },
    }
}

/// The key and trimmed text of `s[from..to]` behind `prefix`.
fn parse_entry(s: &[char], from: usize, to: usize, prefix: &[char], max: u32) -> (r: Option<
    (u32, String),
>)
    requires
        from <= to <= s@.len(),
    ensures
        match entry(s@.subrange(from as int, to as int), prefix@, max as int) {
            Some((k, t)) => r matches Some((k2, t2)) && k2 == k && t2@ == t,
            None => r is None,
        },
        r matches Some((k, _)) ==> k <= max,
{
    if has_prefix_at(s, from, to, prefix) {
        assert(s@.subrange(from as int, to as int).subrange(prefix@.len() as int, (to - from) as int)
            =~= s@.subrange(from + prefix@.len(), to as int));
        parse_value(s, from + prefix.len(), to, max)
    } else {
        None
    }
}

fn parse_class(p: &Patterns, s: &[char], from: usize, to: usize) -> (r: Option<(ClassKey, String)>)
    requires
        p.wf(),
        from <= to <= s@.len(),
    ensures
        match entry(s@.subrange(from as int, to as int), "C "@, 0xff) {
            Some((k, t)) => r matches Some((k2, t2)) && k2.0 == k && t2@ == t,
            None => r is None,
        },
{
    match parse_entry(s, from, to, p.class.as_slice(), 0xff) {
        Some((k, t)) => Some((ClassKey(k as u8), t)),
        None => None,
    }
}

fn parse_vendor(s: &[char], from: usize, to: usize) -> (r: Option<(VendorKey, String)>)
    requires
        from <= to <= s@.len(),
    ensures
        match key_and_text(s@.subrange(from as int, to as int), 0xffff) {
            Some((k, t)) => r matches Some((k2, t2)) && k2.0 == k && t2@ == t,
            None => r is None,
        },
{
    match parse_value(s, from, to, 0xffff) {
        Some((k, t)) => Some((VendorKey(k as u16), t)),
        None => None,
    }
}

fn parse_subclass(p: &Patterns, s: &[char], from: usize, to: usize, class: u8) -> (r: Option<
    (SubclassKey, String),
>)
    requires
        p.wf(),
        from <= to <= s@.len(),
    ensures
        match entry(s@.subrange(from as int, to as int), "\t"@, 0xff) {
            Some((k, t)) => r matches Some((k2, t2)) && k2 == (SubclassKey { class, subclass: k as u8 }) && t2@ == t,
            None => r is None,
        },
{
    match parse_entry(s, from, to, p.tab.as_slice(), 0xff) {
        Some((k, t)) => Some((SubclassKey { class, subclass: k as u8 }, t)),
        None => None,
    }
}

fn parse_protocol(p: &Patterns, s: &[char], from: usize, to: usize, class: u8, subclass: u8) -> (r:
    Option<(ProtocolKey, String)>)
    requires
        p.wf(),
        from <= to <= s@.len(),
    ensures
        match entry(s@.subrange(from as int, to as int), "\t\t"@, 0xff) {
            Some((k, t)) => r matches Some((k2, t2)) && k2 == (ProtocolKey { class, subclass, protocol: k as u8 }) && t2@ == t,
            None => r is None,
        },
{
    match parse_entry(s, from, to, p.tab_tab.as_slice(), 0xff) {
        Some((k, t)) => Some((ProtocolKey { class, subclass, protocol: k as u8 }, t)),
        None => None,
    }
}

fn parse_product(p: &Patterns, s: &[char], from: usize, to: usize, vendor: u16) -> (r: Option<
    (ProductKey, String),
>)
    requires
        p.wf(),
        from <= to <= s@.len(),
    ensures
        match entry(s@.subrange(from as int, to as int), "\t"@, 0xffff) {
            Some((k, t)) => r matches Some((k2, t2)) && k2 == (ProductKey { vendor, product: k as u16 }) && t2@ == t,
            None => r is None,
        },
{
    match parse_entry(s, from, to, p.tab.as_slice(), 0xffff) {
        Some((k, t)) => Some((ProductKey { vendor, product: k as u16 }, t)),
        None => None,
    }
}

/// Reads the line `s[from..to]` into `names`, returning the new last naming line.
fn read_line(names: &mut NamesInner, last: LastState, p: &Patterns, s: &[char], from: usize, to: usize) -> (r:
    LastState)
    requires
        p.wf(),
        from <= to <= s@.len(),
    ensures
        (ParseState { names: final(names)@, last: r }) == step(
            ParseState { names: old(names)@, last },
            s@.subrange(from as int, to as int),
        ),
{
    let ghost line = s@.subrange(from as int, to as int);
    let ghost n = old(names)@;
    if can_skip(p, s, from, to) {
        return last;
    }
    if contains_at(s, from, to, p.lang.as_slice()) {
        return LastState::Lang;
    }
    if let Some((key, text)) = parse_class(p, s, from, to) {
        let _ = names.class.insert(key.0, text);
        assert(names@.class =~= n.class.insert(key.0, text@));
        return LastState::Class(key.0);
    }
    if let Some((key, text)) = parse_vendor(s, from, to) {
        let _ = names.vendor.insert(key.0, text);
        assert(names@.vendor =~= n.vendor.insert(key.0, text@));
        return LastState::Vendor(key.0);
    }
    if contains_at(s, from, to, p.hut.as_slice()) {
        return LastState::Hut;
    }
    match last {
        LastState::Start | LastState::Lang | LastState::Hut => last,
        LastState::Class(class) => {
            if let Some((key, text)) = parse_subclass(p, s, from, to, class) {
                let _ = names.subclass.insert(key.packed(), text);
                assert(names@.subclass =~= n.subclass.insert(subclass_key(key.class, key.subclass), text@));
                LastState::Subclass(class, key.subclass)
            } else {
                last
            }
        },
        LastState::Subclass(class, subclass) => {
            if let Some((key, text)) = parse_subclass(p, s, from, to, class) {
                let _ = names.subclass.insert(key.packed(), text);
                assert(names@.subclass =~= n.subclass.insert(subclass_key(key.class, key.subclass), text@));
                LastState::Subclass(class, key.subclass)
            } else if let Some((key, text)) = parse_protocol(p, s, from, to, class, subclass) {
                let _ = names.protocol.insert(key.packed(), text);
                assert(names@.protocol =~= n.protocol.insert(
                    protocol_key(key.class, key.subclass, key.protocol),
                    text@,
                ));
                last
            } else {
                last
            }
        },
        LastState::Vendor(vendor) | LastState::Product(vendor, _) => {
            if let Some((key, text)) = parse_product(p, s, from, to, vendor) {
                let _ = names.product.insert(key.packed(), text);
                assert(names@.product =~= n.product.insert(product_key(key.vendor, key.product), text@));
                LastState::Product(vendor, key.product)
            } else {
                last
            }
        },
    }
}

/// Reads a names database out of the text of a names file.
pub fn parse_contents(contents: &str) -> (r: Names)
    ensures
        r@ == parsed(contents@),
{
    let cs = chars_of(contents);
    let p = Patterns::new();
    let mut names = NamesInner::new();
    let mut last = LastState::Start;
    let n = cs.len();
    let mut pos: usize = 0;
    assert(cs@.subrange(0, n as int) =~= cs@);
    assert(names@ =~= empty_model());
    while pos < n
        invariant
            p.wf(),
            n == cs@.len(),
            pos <= n,
            parsed(contents@) == run(ParseState { names: names@, last }, cs@.subrange(pos as int, n as int)).names,
        decreases n - pos,
    {
        let ghost text = cs@.subrange(pos as int, n as int);
        let ghost st = ParseState { names: names@, last };
        match find_char(cs.as_slice(), pos, n, '\n') {
            None => {
                last = read_line(&mut names, last, &p, cs.as_slice(), pos, n);
                assert(cs@.subrange(n as int, n as int).len() == 0);
                pos = n;
            },
            Some(i) => {
                let end = if i > pos && cs[i - 1] == '\r' {
                    i - 1
                } else {
                    i
                };
                assert(strip_cr(text.subrange(0, i - pos)) =~= cs@.subrange(pos as int, end as int));
                assert(text.subrange(i - pos + 1, text.len() as int) =~= cs@.subrange(i + 1, n as int));
                last = read_line(&mut names, last, &p, cs.as_slice(), pos, end);
                pos = i + 1;
            },
        }
    }
    Names { inner: Arc::new(names) }
}

} // verus!
