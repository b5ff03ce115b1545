//! The document: a loaded NFO file with its cached views.
use vstd::prelude::*;
use vstd::utf8::is_scalar;
use crate::charset::Charset;
use crate::decode::{detect, decode, detect_spec, decode_spec, scalar_char, REPLACEMENT};
use crate::grid::{NfoRendererGrid, make_renderer_grid};
use crate::text::{strip, stripped, to_markup, markup};

verus! {

/// Relies on `String`'s `FromIterator<char>`: the string holds the chars in order.
#[verifier::external_body]
fn chars_to_string(v: &Vec<char>) -> (r: String)
    ensures
        r@ == v@,
{
    v.iter().collect()
}

/// Relies on `str::chars`: it yields the chars of the string in order.
#[verifier::external_body]
fn str_chars(s: &str) -> (r: Vec<char>)
    ensures
        r@ == s@,
{
    s.chars().collect()
}

/// The glyph a codepoint stands for: itself when it is a Unicode scalar value, U+FFFD otherwise.
pub open spec fn glyph_of(v: u32) -> char {
    if is_scalar(v) {
        v as char
    } else {
        REPLACEMENT
    }
}

/// Turns a sequence of codepoints into a string, each codepoint that is no
/// Unicode scalar value becoming U+FFFD.
pub fn cpp_char_vector_to_utf8_string(vector: Vec<u32>) -> (r: String)
    ensures
        r@ == vector@.map_values(|v: u32| glyph_of(v)),
{
    let mut out: Vec<char> = Vec::new();
    let n = vector.len();
    for i in 0..n
        invariant
            n == vector@.len(),
            out@ == vector@.take(i as int).map_values(|v: u32| glyph_of(v)),
    {
        let c = match scalar_char(vector[i]) {
            Some(ch) => ch,
            None => REPLACEMENT,
        };
        out.push(c);
        assert(out@ =~= vector@.take(i + 1).map_values(|v: u32| glyph_of(v)));
    }
    assert(vector@.take(n as int) =~= vector@);
    chars_to_string(&out)
}

/// A component of a path that names something: neither empty nor `"."`.
pub open spec fn is_name(c: Seq<char>) -> bool {
    c.len() > 0 && c != seq!['.']
}

/// The last naming component before the open one, and the open one, after
/// reading a path from the left; components are separated by `'/'`.
pub open spec fn scan_components(p: Seq<char>) -> (Seq<char>, Seq<char>)
    decreases p.len(),
{
    if p.len() == 0 {
        (Seq::empty(), Seq::empty())
    } else {
        let prev = scan_components(p.drop_last());
        if p.last() == '/' {
            (if is_name(prev.1) { prev.1 } else { prev.0 }, Seq::empty())
        } else {
            (prev.0, prev.1.push(p.last()))
        }
    }
}

/// The last component of a path that is neither empty nor `"."`; empty if none.
pub open spec fn last_name(p: Seq<char>) -> Seq<char> {
    let sc = scan_components(p);
    if is_name(sc.1) {
        sc.1
    } else {
        sc.0
    }
}

/// The file name of a path, as a Unix path reads: its last component, with
/// separators at the end and `"."` components skipped; empty where that
/// component is `".."` or there is none.
pub open spec fn base_name(p: Seq<char>) -> Seq<char> {
    if last_name(p) == seq!['.', '.'] {
        Seq::empty()
    } else {
        last_name(p)
    }
}

/// Whether a component names something.
fn names(c: &Vec<char>) -> (r: bool)
    ensures
        r == is_name(c@),
{
    if c.len() == 0 {
        false
    } else if c.len() == 1 && c[0] == '.' {
        assert(c@ =~= seq!['.']);
        false
    } else {
        assert(c@.len() != 1 ==> c@ != seq!['.']);
        true
    }
}

fn base_name_of(p: &Vec<char>) -> (r: Vec<char>)
    ensures
        r@ == base_name(p@),
{
    let mut last: Vec<char> = Vec::new();
    let mut cur: Vec<char> = Vec::new();
    let n = p.len();
    for i in 0..n
        invariant
            n == p@.len(),
            last@ == scan_components(p@.take(i as int)).0,
            cur@ == scan_components(p@.take(i as int)).1,
    {
        assert(p@.take(i + 1).drop_last() =~= p@.take(i as int));
        if p[i] == '/' {
            if names(&cur) {
                last = cur;
            }
            cur = Vec::new();
        } else {
            cur.push(p[i]);
        }
    }
    assert(p@.take(n as int) =~= p@);
    let name = if names(&cur) {
        cur
    } else {
        last
    };
    if name.len() == 2 && name[0] == '.' && name[1] == '.' {
        assert(name@ =~= seq!['.', '.']);
        Vec::new()
    } else {
        assert(name@.len() != 2 ==> name@ != seq!['.', '.']);
        name
    }
}

/// A decoded document with the views derived from it.
struct LoadedNfo {
    charset: Charset,
    classic: Vec<char>,
    stripped: Vec<char>,
    grid: NfoRendererGrid,
    path: String,
}

/// An NFO document: empty until a load succeeds, then the decoded text and
/// its grid, stripped text and charset.
pub struct NfoData {
    doc: Option<LoadedNfo>,
}

impl NfoData {
    /// A document has been loaded.
    pub closed spec fn loaded(&self) -> bool {
        self.doc is Some
    }

    /// The charset of the loaded document.
    pub closed spec fn charset(&self) -> Charset {
        self.doc->Some_0.charset
    }

    /// The classic text: the decoded glyphs, empty while nothing is loaded.
    pub closed spec fn classic(&self) -> Seq<char> {
        if self.doc is Some {
            self.doc->Some_0.classic@
        } else {
            Seq::empty()
        }
    }

    /// The path the document was loaded from.
    pub closed spec fn path(&self) -> Seq<char> {
        self.doc->Some_0.path@
    }

    /// The cached views agree with the classic text.
    #[verifier::type_invariant]
    spec fn views_agree(&self) -> bool {
        self.doc is Some ==> {
            let d = self.doc->Some_0;
            &&& d.stripped@ == stripped(d.classic@)
            &&& d.grid.is_grid_of(d.classic@)
        }
    }

    /// The state after loading `bytes` from `path`.
    pub open spec fn holds_load(&self, path: Seq<char>, bytes: Seq<u8>) -> bool {
        &&& self.loaded()
        &&& self.charset() == detect_spec(bytes)
        &&& self.classic() == decode_spec(bytes, detect_spec(bytes))
        &&& self.path() == path
    }

    /// An empty document.
    pub fn new() -> (r: NfoData)
        ensures
            !r.loaded(),
            r.classic() == Seq::<char>::empty(),
    {
        NfoData { doc: None }
    }

    /// Whether a document has been loaded.
    pub fn is_loaded(&self) -> (r: bool)
        ensures
            r == self.loaded(),
    {
        self.doc.is_some()
    }

    /// Whether the grid holds a block of decorative glyphs; false while nothing is loaded.
    pub fn has_blocks(&self) -> (r: bool)
        ensures
            r == (self.loaded() && crate::grid::has_block(crate::grid::grid_rows(self.classic()))),
    {
        proof {
            use_type_invariant(self);
        }
        match &self.doc {
            Some(d) => d.grid.has_blocks(),
            None => false,
        }
    }

    /// The path the document was loaded from, if any.
    pub fn get_file_path(&self) -> (r: Option<&str>)
        ensures
            r is Some <==> self.loaded(),
            r is Some ==> r->Some_0@ == self.path(),
    {
        match &self.doc {
            Some(d) => Some(d.path.as_str()),
            None => None,
        }
    }

    /// The last component of the path the document was loaded from, if any.
    pub fn get_file_name(&self) -> (r: Option<String>)
        ensures
            r is Some <==> self.loaded(),
            r is Some ==> r->Some_0@ == base_name(self.path()),
    {
        match &self.doc {
            Some(d) => {
                let p = str_chars(d.path.as_str());
                Some(chars_to_string(&base_name_of(&p)))
            },
            None => None,
        }
    }

    /// Loads a document from the bytes of the file at `path`: detects the
    /// charset, decodes, and builds the grid and the stripped text. The
    /// previous document, if any, is replaced whole.
    pub fn load_from_bytes(&mut self, path: &str, bytes: &[u8])
        ensures
            final(self).holds_load(path@, bytes@),
    {
        let cs = detect(bytes);
        // Detection never picks strict CP 437, so this decode cannot fail.
        let classic = match decode(bytes, cs) {
            Ok(t) => t,
            Err(_) => Vec::new(),
        };
        let stripped_text = strip(&classic);
        let grid = make_renderer_grid(&classic);
        let p = str_chars(path);
        *self = NfoData {
            doc: Some(
                LoadedNfo {
                    charset: cs,
                    classic,
                    stripped: stripped_text,
                    grid,
                    path: chars_to_string(&p),
                },
            ),
        };
    }

    /// The label of the charset, `"(none)"` while nothing is loaded.
    pub fn get_charset_name(&self) -> (r: &'static str)
        ensures
            self.loaded() ==> r@ == self.charset().label(),
            !self.loaded() ==> r@ == "(none)"@,
    {
        match &self.doc {
            Some(d) => d.charset.name(),
            None => "(none)",
        }
    }

    /// The grid of the document, if one is loaded.
    pub fn get_renderer_grid(&self) -> (r: Option<&NfoRendererGrid>)
        ensures
            r is Some <==> self.loaded(),
            r is Some ==> r->Some_0.is_grid_of(self.classic()),
    {
        proof {
            use_type_invariant(self);
        }
        match &self.doc {
            Some(d) => Some(&d.grid),
            None => None,
        }
    }

    /// The markup rendering of the classic text; empty while nothing is loaded.
    pub fn get_classic_html(&self) -> (r: String)
        ensures
            r@ == markup(self.classic()),
            !self.loaded() ==> r@ == Seq::<char>::empty(),
    {
        match &self.doc {
            Some(d) => chars_to_string(&to_markup(&d.classic)),
            None => String::new(),
        }
    }

    /// The classic text; empty while nothing is loaded.
    pub fn get_classic_text(&self) -> (r: String)
        ensures
            r@ == self.classic(),
            !self.loaded() ==> r@ == Seq::<char>::empty(),
    {
        match &self.doc {
            Some(d) => chars_to_string(&d.classic),
            None => String::new(),
        }
    }

    /// The stripped text; empty while nothing is loaded.
    pub fn get_stripped_text(&self) -> (r: String)
        ensures
            r@ == (if self.loaded() { stripped(self.classic()) } else { Seq::empty() }),
    {
        proof {
            use_type_invariant(self);
        }
        match &self.doc {
            Some(d) => chars_to_string(&d.stripped),
            None => String::new(),
        }
    }
}

/// A document that is not loaded shows no text, no markup, no stripped text and no blocks.
pub proof fn lemma_unloaded_views(d: NfoData)
    requires
        !d.loaded(),
    ensures
        d.classic() == Seq::<char>::empty(),
        markup(d.classic()) == Seq::<char>::empty(),
        stripped(d.classic()) == Seq::<char>::empty(),
        !crate::grid::has_block(crate::grid::grid_rows(d.classic())),
{
    let e = Seq::<char>::empty();
    assert(crate::text::pieces(e) =~= Seq::<Seq<char>>::empty());
    crate::grid::lemma_prose_has_no_blocks(e);
}

impl Default for NfoData {
    fn default() -> (r: Self)
        ensures
            !r.loaded(),
            r.classic() == Seq::<char>::empty(),
    {
        Self::new()
    }
}

} // verus!
