use vstd::prelude::*;
use vstd::string::{StrSliceExecFns, StringExecFns};

verus! {

/// The pieces of `s` between occurrences of `sep`, as `str::split` with a
/// `char` gives them: one more piece than there are separators, empty
/// pieces included.
pub open spec fn split_at_char(s: Seq<char>, sep: char) -> Seq<Seq<char>>
    decreases s.len(),
{
    if s.len() == 0 {
        seq![Seq::empty()]
    } else {
        let rest = split_at_char(s.drop_last(), sep);
        if s.last() == sep {
            rest.push(Seq::empty())
        } else {
            rest.update(rest.len() - 1, rest.last().push(s.last()))
        }
    }
}

/// The lines of a text, as `str::lines` gives them: the pieces between
/// `\n` characters, a `\r` right before a `\n` dropped, and no empty last
/// line after a final `\n`.
pub open spec fn text_lines(s: Seq<char>) -> Seq<Seq<char>> {
    let parts = split_at_char(s, '\n');
    let n = if parts.last().len() == 0 {
        parts.len() - 1
    } else {
        parts.len() as int
    };
    Seq::new(
        n as nat,
        |i: int|
            if i < parts.len() - 1 && parts[i].len() > 0 && parts[i].last() == '\r' {
                parts[i].drop_last()
            } else {
                parts[i]
            },
    )
}

/// ASCII whitespace as `u8::is_ascii_whitespace` defines it.
pub open spec fn is_ascii_space(c: char) -> bool {
    c == ' ' || c == '\t' || c == '\n' || c == '\x0C' || c == '\r'
}

/// The words of a line, as `str::split_ascii_whitespace` gives them: the
/// maximal runs of characters that are not ASCII whitespace.
pub open spec fn ascii_words(s: Seq<char>) -> Seq<Seq<char>>
    decreases s.len(),
{
    if s.len() == 0 {
        Seq::empty()
    } else {
        let rest = ascii_words(s.drop_last());
        if is_ascii_space(s.last()) {
            rest
        } else if s.len() >= 2 && !is_ascii_space(s[s.len() - 2]) {
            rest.update(rest.len() - 1, rest.last().push(s.last()))
        } else {
            rest.push(seq![s.last()])
        }
    }
}

/// The pieces of a word between `/` separators, as `str::split('/')` gives them.
pub open spec fn slash_pieces(s: Seq<char>) -> Seq<Seq<char>> {
    split_at_char(s, '/')
}

/// Relies on `str::lines`: the lines of `data`, in order.
#[verifier::external_body]
fn split_lines<'a>(data: &'a str) -> (r: Vec<&'a str>)
    ensures
        r@.map_values(|l: &str| l@) == text_lines(data@),
{
    data.lines().collect()
}

/// Relies on `str::split_ascii_whitespace`: the words of `line`, in order.
#[verifier::external_body]
fn split_words<'a>(line: &'a str) -> (r: Vec<&'a str>)
    ensures
        r@.map_values(|w: &str| w@) == ascii_words(line@),
{
    line.split_ascii_whitespace().collect()
}

/// Relies on `str::split` with `'/'`: the pieces of `word`, in order.
#[verifier::external_body]
fn split_slashes<'a>(word: &'a str) -> (r: Vec<&'a str>)
    ensures
        r@.map_values(|w: &str| w@) == slash_pieces(word@),
{
    word.split('/').collect()
}

fn starts_with_hash(line: &str) -> (r: bool)
    ensures
        r == (line@.len() > 0 && line@[0] == '#'),
{
    line.unicode_len() > 0 && line.get_char(0) == '#'
}

fn same_text(a: &str, b: &str) -> (r: bool)
    ensures
        r == (a@ == b@),
{
    let n = a.unicode_len();
    if n != b.unicode_len() {
        return false;
    }
    let mut i: usize = 0;
    while i < n
        invariant
            n == a@.len(),
            n == b@.len(),
            0 <= i <= n,
            forall|j: int| 0 <= j < i ==> a@[j] == b@[j],
        decreases n - i,
    {
        if a.get_char(i) != b.get_char(i) {
            return false;
        }
        i = i + 1;
    }
    assert(a@ =~= b@);
    true
}

pub open spec fn is_decimal_digit(c: char) -> bool {
    '0' <= c <= '9'
}

/// The value of a string of decimal digits.
pub open spec fn digits_value(s: Seq<char>) -> nat
    decreases s.len(),
{
    if s.len() == 0 {
        0
    } else {
        digits_value(s.drop_last()) * 10 + (s.last() as nat - '0' as nat) as nat
    }
}

/// What `usize::from_str` accepts: an optional `+`, then one or more decimal
/// digits and nothing else, for a value that fits in `usize`.
pub open spec fn decimal_usize(s: Seq<char>) -> Option<usize> {
    let d = if s.len() > 0 && s[0] == '+' {
        s.drop_first()
    } else {
        s
    };
    if d.len() > 0 && (forall|i: int| 0 <= i < d.len() ==> is_decimal_digit(#[trigger] d[i]))
        && digits_value(d) <= usize::MAX {
        Some(digits_value(d) as usize)
    } else {
        None
    }
}

/// Relies on `usize::from_str`, documented as accepting an optional `+`
/// followed by decimal digits only.
#[verifier::external_body]
fn parse_index(s: &str) -> (r: Option<usize>)
    ensures
        r == decimal_usize(s@),
{
    s.parse::<usize>().ok()
}

/// The kind of problem that stops reading an OBJ text.
#[derive(Clone, Copy, Debug, PartialEq, Eq, Structural)]
pub enum ObjErrorKind {
    /// A statement ends before one of its values; `item` names the value.
    NoValue,
    /// A face index is not a decimal `usize`; `words` holds it.
    BadIndex,
    /// A face does not have exactly three corners.
    NotTriangle,
    /// The statement type in `item` is not one this reader knows.
    UnsupportedType,
    /// A face corner refers to a position or normal not read before it.
    MissingVertexData,
}

/// Why an OBJ text could not be read, at line `line` (counted from 0).
/// `item` is the statement type or value concerned ("v", "vn", "face v",
/// "face n", or the unknown type), empty where none applies. For a missing
/// coordinate, `words` holds the coordinates that the statement does have;
/// for a bad index, the index word.
#[derive(Debug, PartialEq, Eq)]
pub struct ObjError {
    pub line: usize,
    pub kind: ObjErrorKind,
    pub item: String,
    pub words: Vec<String>,
}

/// The three coordinate words of a `v` or `vn` statement, and its line.
#[derive(Debug, PartialEq, Eq)]
pub struct Coords {
    pub line: usize,
    pub words: Vec<String>,
}

/// The statements of an OBJ text, read up to the end or to the first error.
/// Coordinates stay text; `vertices` holds the distinct (position, normal)
/// pairs of the face corners, zero-based, in order of first use, and
/// `elements` the vertex of each corner, three per face.
#[derive(Debug, PartialEq, Eq)]
pub struct ObjText {
    pub positions: Vec<Coords>,
    pub normals: Vec<Coords>,
    pub vertices: Vec<(usize, usize)>,
    pub elements: Vec<u32>,
    pub error: Option<ObjError>,
}

pub struct ObjErrorModel {
    pub line: int,
    pub kind: ObjErrorKind,
    pub item: Seq<char>,
    pub words: Seq<Seq<char>>,
}

pub struct ObjModel {
    pub positions: Seq<(int, Seq<Seq<char>>)>,
    pub normals: Seq<(int, Seq<Seq<char>>)>,
    pub vertices: Seq<(usize, usize)>,
    pub elements: Seq<u32>,
    pub error: Option<ObjErrorModel>,
}

pub open spec fn strings_view(v: Seq<String>) -> Seq<Seq<char>> {
    v.map_values(|s: String| s@)
}

impl View for ObjError {
    type V = ObjErrorModel;

    open spec fn view(&self) -> ObjErrorModel {
        ObjErrorModel {
            line: self.line as int,
            kind: self.kind,
            item: self.item@,
            words: strings_view(self.words@),
        }
    }
}

impl View for Coords {
    type V = (int, Seq<Seq<char>>);

    open spec fn view(&self) -> (int, Seq<Seq<char>>) {
        (self.line as int, strings_view(self.words@))
    }
}

impl View for ObjText {
    type V = ObjModel;

    open spec fn view(&self) -> ObjModel {
        ObjModel {
            positions: self.positions@.map_values(|c: Coords| c@),
            normals: self.normals@.map_values(|c: Coords| c@),
            vertices: self.vertices@,
            elements: self.elements@,
            error: match self.error {
                Some(e) => Some(e@),
                None => None,
            },
        }
    }
}

pub open spec fn empty_model() -> ObjModel {
    ObjModel {
        positions: Seq::empty(),
        normals: Seq::empty(),
        vertices: Seq::empty(),
        elements: Seq::empty(),
        error: None,
    }
}

pub open spec fn fail(
    st: ObjModel,
    line: int,
    kind: ObjErrorKind,
    item: Seq<char>,
    words: Seq<Seq<char>>,
) -> ObjModel {
    ObjModel { error: Some(ObjErrorModel { line, kind, item, words }), ..st }
}

/// A `v` (`normal` false) or `vn` statement with words `w`, the type first.
pub open spec fn coords_step(st: ObjModel, line: int, normal: bool, w: Seq<Seq<char>>) -> ObjModel {
    let values = w.subrange(1, if w.len() < 4 { w.len() as int } else { 4 });
    if w.len() < 4 {
        fail(st, line, ObjErrorKind::NoValue, if normal { "vn"@ } else { "v"@ }, values)
    } else if normal {
        ObjModel { normals: st.normals.push((line, values)), ..st }
    } else {
        ObjModel { positions: st.positions.push((line, values)), ..st }
    }
}

/// `k` is where `key` first occurs in `vs`.
pub open spec fn first_index(vs: Seq<(usize, usize)>, key: (usize, usize), k: int) -> bool {
    &&& 0 <= k < vs.len()
    &&& vs[k] == key
    &&& forall|j: int| 0 <= j < k ==> vs[j] != key
}

/// One face corner, written `p/t/n`: position `p` and normal `n`, counted
/// from 1, the texture piece unread.
pub open spec fn corner_step(st: ObjModel, line: int, word: Seq<char>) -> ObjModel {
    let parts = slash_pieces(word);
    if parts.len() == 0 {
        fail(st, line, ObjErrorKind::NoValue, "face v"@, Seq::empty())
    } else if decimal_usize(parts[0]) is None {
        fail(st, line, ObjErrorKind::BadIndex, "face v"@, seq![parts[0]])
    } else if parts.len() < 3 {
        fail(st, line, ObjErrorKind::NoValue, "face n"@, Seq::empty())
    } else if decimal_usize(parts[2]) is None {
        fail(st, line, ObjErrorKind::BadIndex, "face n"@, seq![parts[2]])
    } else {
        let p = decimal_usize(parts[0])->0;
        let n = decimal_usize(parts[2])->0;
        if p == 0 || p > st.positions.len() || n == 0 || n > st.normals.len() {
            fail(st, line, ObjErrorKind::MissingVertexData, Seq::empty(), Seq::empty())
        } else {
            let key = ((p - 1) as usize, (n - 1) as usize);
            if exists|k: int| first_index(st.vertices, key, k) {
                let k = choose|k: int| first_index(st.vertices, key, k);
                ObjModel { elements: st.elements.push(k as u32), ..st }
            } else {
                ObjModel {
                    vertices: st.vertices.push(key),
                    elements: st.elements.push(st.vertices.len() as u32),
                    ..st
                }
            }
        }
    }
}

/// The first `k` corners of the face whose words are `w`, the type first.
pub open spec fn corners_step(st: ObjModel, line: int, w: Seq<Seq<char>>, k: int) -> ObjModel
    decreases k,
{
    if k <= 0 {
        st
    } else {
        let s = corners_step(st, line, w, k - 1);
        if s.error is Some {
            s
        } else {
            corner_step(s, line, w[k])
        }
    }
}

/// One line of the text, number `line`.
pub open spec fn line_step(st: ObjModel, line: int, text: Seq<char>) -> ObjModel {
    let w = ascii_words(text);
    if text.len() > 0 && text[0] == '#' {
        st
    } else if w.len() == 0 {
        st
    } else if w[0] == "v"@ {
        coords_step(st, line, false, w)
    } else if w[0] == "vn"@ {
        coords_step(st, line, true, w)
    } else if w[0] == "f"@ {
        if w.len() != 4 {
            fail(st, line, ObjErrorKind::NotTriangle, Seq::empty(), Seq::empty())
        } else {
            corners_step(st, line, w, 3)
        }
    } else {
        fail(st, line, ObjErrorKind::UnsupportedType, w[0], Seq::empty())
    }
}

/// The reader's state after the first `k` lines of `lines`.
pub open spec fn read_lines(lines: Seq<Seq<char>>, k: int) -> ObjModel
    decreases k,
{
    if k <= 0 {
        empty_model()
    } else {
        let s = read_lines(lines, k - 1);
        if s.error is Some {
            s
        } else {
            line_step(s, k - 1, lines[k - 1])
        }
    }
}

/// What reading the OBJ text `data` gives.
pub open spec fn obj_model(data: Seq<char>) -> ObjModel {
    read_lines(text_lines(data), text_lines(data).len() as int)
}

proof fn lemma_first_index_unique(vs: Seq<(usize, usize)>, key: (usize, usize), i: int, j: int)
    requires
        first_index(vs, key, i),
        first_index(vs, key, j),
    ensures
        i == j,
{
    if i < j {
        assert(vs[i] == key);
    } else if j < i {
        assert(vs[j] == key);
    }
}

proof fn lemma_error_stays(lines: Seq<Seq<char>>, a: int, b: int)
    requires
        0 <= a <= b,
        read_lines(lines, a).error is Some,
    ensures
        read_lines(lines, b) == read_lines(lines, a),
    decreases b - a,
{
    if a < b {
        lemma_error_stays(lines, a, b - 1);
    }
}

proof fn lemma_corners_stay(st: ObjModel, line: int, w: Seq<Seq<char>>, a: int, b: int)
    requires
        0 <= a <= b,
        corners_step(st, line, w, a).error is Some,
    ensures
        corners_step(st, line, w, b) == corners_step(st, line, w, a),
    decreases b - a,
{
    if a < b {
        lemma_corners_stay(st, line, w, a, b - 1);
    }
}

fn owned_words(words: &Vec<&str>, from: usize, to: usize) -> (r: Vec<String>)
    requires
        from <= to <= words@.len(),
    ensures
        strings_view(r@) == words@.map_values(|w: &str| w@).subrange(from as int, to as int),
{
    let mut r: Vec<String> = Vec::new();
    let mut j: usize = from;
    while j < to
        invariant
            from <= j <= to <= words@.len(),
            r@.len() == j - from,
            strings_view(r@) == words@.map_values(|w: &str| w@).subrange(from as int, j as int),
        decreases to - j,
    {
        let ghost prev = r@;
        r.push(String::from_str(words[j]));
        proof {
            let w = words@.map_values(|w: &str| w@);
            assert forall|k: int| 0 <= k < r@.len() implies #[trigger] strings_view(r@)[k]
                == w.subrange(from as int, j + 1)[k] by {
                if k < prev.len() {
                    assert(r@[k] == prev[k]);
                    assert(strings_view(prev)[k] == w.subrange(from as int, j as int)[k]);
                } else {
                    assert(r@[k]@ == words@[j as int]@);
                }
            }
            assert(strings_view(r@) =~= w.subrange(from as int, j + 1));
        }
        j = j + 1;
    }
    r
}

fn find_vertex(vertices: &Vec<(usize, usize)>, key: (usize, usize)) -> (r: Option<usize>)
    ensures
        r matches Some(k) ==> first_index(vertices@, key, k as int),
        r is None ==> !exists|k: int| first_index(vertices@, key, k),
{
    let mut k: usize = 0;
    while k < vertices.len()
        invariant
            0 <= k <= vertices@.len(),
            forall|j: int| 0 <= j < k ==> vertices@[j] != key,
        decreases vertices@.len() - k,
    {
        let v = vertices[k];
        if v.0 == key.0 && v.1 == key.1 {
            return Some(k);
        }
        k = k + 1;
    }
    None
}

fn no_words() -> (r: Vec<String>)
    ensures
        strings_view(r@) == Seq::<Seq<char>>::empty(),
{
    let r: Vec<String> = Vec::new();
    assert(strings_view(r@) =~= Seq::<Seq<char>>::empty());
    r
}

fn error_at(line: usize, kind: ObjErrorKind, item: &str, words: Vec<String>) -> (r: Option<ObjError>)
    ensures
        r matches Some(e) && e@ == (ObjErrorModel {
            line: line as int,
            kind,
            item: item@,
            words: strings_view(words@),
        }),
{
    Some(ObjError { line, kind, item: String::from_str(item), words })
}

impl ObjText {
    fn read_coords(&mut self, line: usize, normal: bool, words: &Vec<&str>)
        requires
            old(self).error is None,
            words@.len() >= 1,
        ensures
            final(self)@ == coords_step(old(self)@, line as int, normal, words@.map_values(|w: &str| w@)),
    {
        let end = if words.len() < 4 { words.len() } else { 4 };
        let values = owned_words(words, 1, end);
        if words.len() < 4 {
            let item = if normal { "vn" } else { "v" };
            self.error = error_at(line, ObjErrorKind::NoValue, item, values);
        } else if normal {
            self.normals.push(Coords { line, words: values });
            assert(self@.normals =~= old(self)@.normals.push((line as int, strings_view(values@))));
        } else {
            self.positions.push(Coords { line, words: values });
            assert(self@.positions =~= old(self)@.positions.push((line as int, strings_view(values@))));
        }
    }

    fn read_corner(&mut self, line: usize, word: &str)
        requires
            old(self).error is None,
        ensures
            final(self)@ == corner_step(old(self)@, line as int, word@),
    {
        let parts = split_slashes(word);
        let ghost ps = parts@.map_values(|w: &str| w@);
        if parts.len() == 0 {
            self.error = error_at(line, ObjErrorKind::NoValue, "face v", no_words());
            return;
        }
        assert(ps[0] == parts@[0]@);
        let p = match parse_index(parts[0]) {
            Some(p) => p,
            None => {
                let ws = vec![String::from_str(parts[0])];
                self.error = error_at(line, ObjErrorKind::BadIndex, "face v", ws);
                assert(strings_view(ws@) =~= seq![ps[0]]);
                return;
            },
        };
        if parts.len() < 3 {
            self.error = error_at(line, ObjErrorKind::NoValue, "face n", no_words());
            return;
        }
        assert(ps[2] == parts@[2]@);
        let n = match parse_index(parts[2]) {
            Some(n) => n,
            None => {
                let ws = vec![String::from_str(parts[2])];
                self.error = error_at(line, ObjErrorKind::BadIndex, "face n", ws);
                assert(strings_view(ws@) =~= seq![ps[2]]);
                return;
            },
        };
        if p == 0 || p > self.positions.len() || n == 0 || n > self.normals.len() {
            self.error = error_at(line, ObjErrorKind::MissingVertexData, "", no_words());
            assert(""@ =~= Seq::<char>::empty()) by {
                reveal_strlit("");
            }
            return;
        }
        let key = (p - 1, n - 1);
        if let Some(k) = find_vertex(&self.vertices, key) {
            proof {
                let c = choose|c: int| first_index(self.vertices@, key, c);
                lemma_first_index_unique(self.vertices@, key, k as int, c);
            }
            self.elements.push(k as u32);
            return;
        }
        let index = self.vertices.len() as u32;
        self.vertices.push(key);
        self.elements.push(index);
    }

    fn read_face(&mut self, line: usize, words: &Vec<&str>)
        requires
            old(self).error is None,
            words@.len() == 4,
        ensures
            final(self)@ == corners_step(old(self)@, line as int, words@.map_values(|w: &str| w@), 3),
    {
        let ghost w = words@.map_values(|w: &str| w@);
        let ghost start = self@;
        let mut j: usize = 1;
        while j < 4
            invariant
                1 <= j <= 4,
                words@.len() == 4,
                w == words@.map_values(|w: &str| w@),
                start == old(self)@,
                self@ == corners_step(start, line as int, w, j - 1),
            decreases 4 - j,
        {
            if self.error.is_some() {
                proof {
                    lemma_corners_stay(start, line as int, w, j - 1, 3);
                }
                return;
            }
            self.read_corner(line, words[j]);
            j = j + 1;
        }
    }

    fn read_line(&mut self, line: usize, text: &str)
        requires
            old(self).error is None,
        ensures
            final(self)@ == line_step(old(self)@, line as int, text@),
    {
        if starts_with_hash(text) {
            return;
        }
        let words = split_words(text);
        let ghost w = words@.map_values(|w: &str| w@);
        if words.len() == 0 {
            return;
        }
        assert(w[0] == words@[0]@);
        if same_text(words[0], "v") {
            self.read_coords(line, false, &words);
        } else if same_text(words[0], "vn") {
            self.read_coords(line, true, &words);
        } else if same_text(words[0], "f") {
            if words.len() != 4 {
                self.error = error_at(line, ObjErrorKind::NotTriangle, "", no_words());
                assert(""@ =~= Seq::<char>::empty()) by {
                    reveal_strlit("");
                }
            } else {
                self.read_face(line, &words);
            }
        } else {
            self.error = error_at(line, ObjErrorKind::UnsupportedType, words[0], no_words());
        }
    }
}

/// Reads the statements of an OBJ text: positions (`v x y z`), normals
/// (`vn x y z`) and triangles (`f p//n p//n p//n`, indices from 1); lines
/// that start with `#` and blank lines are skipped. Reading stops at the
/// first line that cannot be read, whose problem is then in `error`.
pub fn parse_obj(data: &str) -> (r: ObjText)
    ensures
        r@ == obj_model(data@),
{
    let lines = split_lines(data);
    let ghost ls = lines@.map_values(|l: &str| l@);
    let mut st = ObjText {
        positions: Vec::new(),
        normals: Vec::new(),
        vertices: Vec::new(),
        elements: Vec::new(),
        error: None,
    };
    assert(st@.positions =~= Seq::<(int, Seq<Seq<char>>)>::empty());
    assert(st@.normals =~= Seq::<(int, Seq<Seq<char>>)>::empty());
    assert(st@.vertices =~= Seq::<(usize, usize)>::empty());
    assert(st@.elements =~= Seq::<u32>::empty());
    let mut i: usize = 0;
    while i < lines.len()
        invariant
            0 <= i <= lines@.len(),
            ls == lines@.map_values(|l: &str| l@),
            ls == text_lines(data@),
            st@ == read_lines(ls, i as int),
        decreases lines@.len() - i,
    {
        if st.error.is_some() {
            proof {
                lemma_error_stays(ls, i as int, ls.len() as int);
            }
            return st;
        }
        st.read_line(i, lines[i]);
        i = i + 1;
    }
    st
}

/// Every vertex refers to a position and a normal that were read, no vertex
/// appears twice, and, while vertex numbers fit in `u32`, every element names
/// a vertex.
pub open spec fn indices_valid(m: ObjModel) -> bool {
    &&& forall|i: int|
        0 <= i < m.vertices.len() ==> (#[trigger] m.vertices[i]).0 < m.positions.len()
            && m.vertices[i].1 < m.normals.len()
    &&& m.vertices.no_duplicates()
    &&& m.vertices.len() <= u32::MAX + 1 ==> forall|k: int|
        0 <= k < m.elements.len() ==> (#[trigger] m.elements[k] as int) < m.vertices.len()
}

proof fn lemma_corner_keeps_indices(st: ObjModel, line: int, word: Seq<char>)
    requires
        indices_valid(st),
    ensures
        indices_valid(corner_step(st, line, word)),
{
    let r = corner_step(st, line, word);
    let parts = slash_pieces(word);
    if parts.len() > 0 && decimal_usize(parts[0]) is Some && parts.len() >= 3 && decimal_usize(
        parts[2],
    ) is Some {
        let p = decimal_usize(parts[0])->0;
        let n = decimal_usize(parts[2])->0;
        if !(p == 0 || p > st.positions.len() || n == 0 || n > st.normals.len()) {
            let key = ((p - 1) as usize, (n - 1) as usize);
            if exists|k: int| first_index(st.vertices, key, k) {
                let k = choose|k: int| first_index(st.vertices, key, k);
                assert forall|j: int| 0 <= j < r.elements.len() && r.vertices.len() <= u32::MAX
                    + 1 implies (#[trigger] r.elements[j] as int) < r.vertices.len() by {
                    if j < st.elements.len() {
                        assert(r.elements[j] == st.elements[j]);
                    }
                }
            } else {
                assert forall|i: int| 0 <= i < st.vertices.len() implies st.vertices[i] != key by {
                    if st.vertices[i] == key {
                        let i0 = choose|i0: int| 0 <= i0 < st.vertices.len() && st.vertices[i0] == key
                            && forall|j: int| 0 <= j < i0 ==> st.vertices[j] != key;
                        assert(first_index(st.vertices, key, i0));
                    }
                }
                assert forall|j: int| 0 <= j < r.elements.len() && r.vertices.len() <= u32::MAX
                    + 1 implies (#[trigger] r.elements[j] as int) < r.vertices.len() by {
                    if j < st.elements.len() {
                        assert(r.elements[j] == st.elements[j]);
                    }
                }
                assert forall|i: int, j: int|
                    0 <= i < r.vertices.len() && 0 <= j < r.vertices.len() && i != j implies r.vertices[i]
                    != r.vertices[j] by {
                    if i < st.vertices.len() && j < st.vertices.len() {
                        assert(st.vertices.no_duplicates());
                    }
                }
            }
        }
    }
}

proof fn lemma_line_keeps_indices(st: ObjModel, line: int, text: Seq<char>)
    requires
        indices_valid(st),
    ensures
        indices_valid(line_step(st, line, text)),
{
    let w = ascii_words(text);
    if !(text.len() > 0 && text[0] == '#') && w.len() > 0 && w[0] != "v"@ && w[0] != "vn"@ && w[0]
        == "f"@ && w.len() == 4 {
        lemma_corners_keep_indices(st, line, w, 3);
    }
}

proof fn lemma_corners_keep_indices(st: ObjModel, line: int, w: Seq<Seq<char>>, k: int)
    requires
        indices_valid(st),
        k < w.len(),
    ensures
        indices_valid(corners_step(st, line, w, k)),
    decreases k,
{
    if k > 0 {
        lemma_corners_keep_indices(st, line, w, k - 1);
        let s = corners_step(st, line, w, k - 1);
        if s.error is None {
            lemma_corner_keeps_indices(s, line, w[k]);
        }
    }
}

proof fn lemma_lines_keep_indices(lines: Seq<Seq<char>>, k: int)
    ensures
        indices_valid(read_lines(lines, k)),
    decreases k,
{
    if k <= 0 {
        assert(empty_model().vertices.no_duplicates());
    } else {
        lemma_lines_keep_indices(lines, k - 1);
        let s = read_lines(lines, k - 1);
        if s.error is None {
            lemma_line_keeps_indices(s, k - 1, lines[k - 1]);
        }
    }
}

/// Whatever the text, the vertices that reading it gives refer only to
/// coordinates it read, each vertex occurs once, and every element names a
/// vertex while vertex numbers fit in `u32`.
pub proof fn lemma_obj_indices_valid(data: Seq<char>)
    ensures
        indices_valid(obj_model(data)),
{
    let lines = text_lines(data);
    lemma_lines_keep_indices(lines, lines.len() as int);
}

} // verus!
