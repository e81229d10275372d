//! The scene-file grammar.
//!
//! A scene file is line-oriented and read as bytes; blanks are ASCII
//! whitespace. Blank lines and lines whose first non-blank byte is `#` are
//! ignored; every other line is a keyword followed by its fields, separated
//! by single spaces. Integer fields (sizes, depths, vertex counts and
//! indices) are parsed and checked here; every other numeric field is kept
//! as the text that the file wrote, for the caller to read as a
//! floating-point value.

use vstd::prelude::*;
use vstd::string::StringSliceAdditionalSpecFns;

verus! {

// ----------------------------------------------------------------------------
// Bytes, blanks and fields
// ----------------------------------------------------------------------------

/// An ASCII whitespace byte: tab, line feed, vertical tab, form feed,
/// carriage return or space. Scene files are read as bytes, and only ASCII
/// whitespace counts as blank: a line that holds nothing but a non-ASCII
/// space (such as U+00A0) is read as an unknown keyword, not as a blank line.
pub open spec fn is_space(c: u8) -> bool {
    c == 0x20 || (0x09 <= c && c <= 0x0d)
}

/// `s` without its leading whitespace.
pub open spec fn trim_start(s: Seq<u8>) -> Seq<u8>
    decreases s.len(),
{
    if s.len() > 0 && is_space(s[0]) {
        trim_start(s.drop_first())
    } else {
        s
    }
}

/// `s` without its trailing whitespace.
pub open spec fn trim_end(s: Seq<u8>) -> Seq<u8>
    decreases s.len(),
{
    if s.len() > 0 && is_space(s.last()) {
        trim_end(s.drop_last())
    } else {
        s
    }
}

/// `s` without its leading and trailing whitespace.
pub open spec fn trim(s: Seq<u8>) -> Seq<u8> {
    trim_end(trim_start(s))
}

/// Splitting `s` at every space: the fields already closed, and the field
/// still open at the end of `s`.
pub open spec fn split_state(s: Seq<u8>) -> (Seq<Seq<u8>>, Seq<u8>)
    decreases s.len(),
{
    if s.len() == 0 {
        (seq![], seq![])
    } else {
        let (done, open) = split_state(s.drop_last());
        if s.last() == 0x20 {
            (done.push(open), seq![])
        } else {
            (done, open.push(s.last()))
        }
    }
}

/// The fields of `s` separated by single spaces. Two adjacent spaces delimit
/// an empty field, and there is always at least one field.
pub open spec fn split_fields(s: Seq<u8>) -> Seq<Seq<u8>> {
    split_state(s).0.push(split_state(s).1)
}

/// The byte contents of a sequence of fields.
pub open spec fn texts(v: Seq<Vec<u8>>) -> Seq<Seq<u8>> {
    v.map_values(|t: Vec<u8>| t@)
}

/// A copy of `s[a..b]`.
fn copy_range(s: &[u8], a: usize, b: usize) -> (r: Vec<u8>)
    requires
        a <= b <= s@.len(),
    ensures
        r@ == s@.subrange(a as int, b as int),
{
    let mut r: Vec<u8> = Vec::with_capacity(b - a);
    let mut i: usize = a;
    while i < b
        invariant
            a <= i <= b,
            b <= s@.len(),
            r@ == s@.subrange(a as int, i as int),
        decreases b - i,
    {
        r.push(s[i]);
        i = i + 1;
        proof {
            assert(r@ =~= s@.subrange(a as int, i as int));
        }
    }
    r
}

/// A copy of `s` without its leading and trailing whitespace.
fn trimmed(s: &[u8]) -> (r: Vec<u8>)
    ensures
        r@ == trim(s@),
{
    let len: usize = s.len();
    let mut a: usize = 0;
    proof {
        assert(s@.subrange(0, len as int) =~= s@);
    }
    while a < len && (s[a] == 0x20 || (0x09 <= s[a] && s[a] <= 0x0d))
        invariant
            a <= len,
            len == s@.len(),
            trim_start(s@) == trim_start(s@.subrange(a as int, len as int)),
        decreases len - a,
    {
        proof {
            assert(s@.subrange(a as int, len as int).drop_first() =~= s@.subrange(
                a as int + 1,
                len as int,
            ));
        }
        a = a + 1;
    }
    let mut b: usize = len;
    proof {
        assert(trim_start(s@.subrange(a as int, len as int)) == s@.subrange(a as int, len as int));
    }
    while b > a && (s[b - 1] == 0x20 || (0x09 <= s[b - 1] && s[b - 1] <= 0x0d))
        invariant
            a <= b <= len,
            len == s@.len(),
            trim(s@) == trim_end(s@.subrange(a as int, b as int)),
        decreases b - a,
    {
        proof {
            assert(s@.subrange(a as int, b as int).drop_last() =~= s@.subrange(
                a as int,
                b as int - 1,
            ));
        }
        b = b - 1;
    }
    copy_range(s, a, b)
}

/// The fields of `s` separated by single spaces.
fn split_spaces(s: &[u8]) -> (r: Vec<Vec<u8>>)
    ensures
        texts(r@) == split_fields(s@),
{
    let len: usize = s.len();
    let mut done: Vec<Vec<u8>> = Vec::new();
    let mut open: Vec<u8> = Vec::new();
    let mut i: usize = 0;
    while i < len
        invariant
            i <= len,
            len == s@.len(),
            (texts(done@), open@) == split_state(s@.subrange(0, i as int)),
        decreases len - i,
    {
        proof {
            assert(s@.subrange(0, i as int + 1).drop_last() =~= s@.subrange(0, i as int));
        }
        if s[i] == 0x20 {
            let ghost before = texts(done@);
            let closed = open;
            done.push(closed);
            open = Vec::new();
            proof {
                assert(texts(done@) =~= before.push(closed@));
                assert(open@ =~= seq![]);
            }
        } else {
            open.push(s[i]);
        }
        i = i + 1;
    }
    proof {
        assert(s@.subrange(0, len as int) =~= s@);
    }
    let ghost before = texts(done@);
    let last = open;
    done.push(last);
    proof {
        assert(texts(done@) =~= before.push(last@));
    }
    done
}

// ----------------------------------------------------------------------------
// Integer fields
// ----------------------------------------------------------------------------

/// An ASCII decimal digit.
pub open spec fn is_digit(c: u8) -> bool {
    0x30 <= c && c <= 0x39
}

/// The value of a sequence of decimal digits, most significant first.
pub open spec fn digits_value(s: Seq<u8>) -> nat
    decreases s.len(),
{
    if s.len() == 0 {
        0
    } else {
        digits_value(s.drop_last()) * 10 + (s.last() - 0x30) as nat
    }
}

/// The digits of an unsigned integer field: the field without one leading `+`.
pub open spec fn unsigned_digits(s: Seq<u8>) -> Seq<u8> {
    if s.len() > 0 && s[0] == 0x2b {
        s.drop_first()
    } else {
        s
    }
}

/// An unsigned decimal integer: an optional `+` and at least one digit,
/// nothing else.
pub open spec fn is_decimal(s: Seq<u8>) -> bool {
    let d = unsigned_digits(s);
    d.len() > 0 && forall|i: int| 0 <= i < d.len() ==> is_digit(#[trigger] d[i])
}

/// The value of an unsigned decimal integer.
pub open spec fn decimal_value(s: Seq<u8>) -> nat {
    digits_value(unsigned_digits(s))
}

/// `s` is an unsigned decimal integer no larger than `max`.
pub open spec fn is_decimal_within(s: Seq<u8>, max: nat) -> bool {
    is_decimal(s) && decimal_value(s) <= max
}

proof fn lemma_digits_value_monotone(s: Seq<u8>, k: int)
    requires
        0 <= k <= s.len(),
    ensures
        digits_value(s.subrange(0, k)) <= digits_value(s),
    decreases s.len(),
{
    if k < s.len() {
        lemma_digits_value_monotone(s.drop_last(), k);
        assert(s.drop_last().subrange(0, k) =~= s.subrange(0, k));
    } else {
        assert(s.subrange(0, k) =~= s);
    }
}

/// Reads an unsigned decimal integer no larger than `max`.
fn parse_decimal(s: &[u8], max: u64) -> (r: Option<u64>)
    ensures
        r is Some <==> is_decimal_within(s@, max as nat),
        r matches Some(v) ==> v == decimal_value(s@),
{
    let len: usize = s.len();
    let start: usize = if len > 0 && s[0] == 0x2b {
        1
    } else {
        0
    };
    proof {
        assert(unsigned_digits(s@) =~= s@.subrange(start as int, len as int));
    }
    if start == len {
        return None;
    }
    let mut acc: u64 = 0;
    let mut i: usize = start;
    while i < len
        invariant
            start <= i <= len,
            len == s@.len(),
            unsigned_digits(s@) == s@.subrange(start as int, len as int),
            forall|j: int| start <= j < i ==> is_digit(#[trigger] s@[j]),
            acc == digits_value(s@.subrange(start as int, i as int)),
            acc <= max,
        decreases len - i,
    {
        let c = s[i];
        if !(0x30 <= c && c <= 0x39) {
            proof {
                let d = unsigned_digits(s@);
                assert(d[i - start] == c);
            }
            return None;
        }
        let next: u128 = acc as u128 * 10 + (c - 0x30) as u128;
        proof {
            assert(s@.subrange(start as int, i as int + 1).drop_last() =~= s@.subrange(
                start as int,
                i as int,
            ));
        }
        if next > max as u128 {
            proof {
                let d = unsigned_digits(s@);
                if is_decimal(s@) {
                    lemma_digits_value_monotone(d, i + 1 - start);
                    assert(d.subrange(0, i + 1 - start) =~= s@.subrange(
                        start as int,
                        i as int + 1,
                    ));
                }
            }
            return None;
        }
        acc = next as u64;
        i = i + 1;
    }
    proof {
        let d = unsigned_digits(s@);
        assert forall|j: int| 0 <= j < d.len() implies is_digit(#[trigger] d[j]) by {
            assert(d[j] == s@[start + j]);
        }
    }
    Some(acc)
}

// ----------------------------------------------------------------------------
// Keywords and directives
// ----------------------------------------------------------------------------

/// The keyword that opens a line of a scene file.
#[derive(Clone, Copy, Debug, PartialEq, Eq, Structural)]
pub enum Keyword {
    /// `size w h`: the image size in pixels.
    Size,
    /// `output path`: where the image goes.
    Output,
    /// `camera px py pz lx ly lz ux uy uz fov`: position, target, up vector and field of view.
    Camera,
    /// `ambient r g b`: the ambient light.
    Ambient,
    /// `maxdepth n`: the deepest recursion of a ray.
    MaxDepth,
    /// `maxverts n`: the capacity of the vertex pool.
    MaxVerts,
    /// `vertex x y z`: a vertex for later triangles.
    Vertex,
    /// `diffuse r g b`: the diffuse colour of the primitives that follow.
    Diffuse,
    /// `specular r g b`: the specular colour of the primitives that follow.
    Specular,
    /// `shininess s`: the shininess of the primitives that follow.
    Shininess,
    /// `sphere cx cy cz r`: a sphere.
    Sphere,
    /// `tri i j k`: a triangle over three vertices of the pool.
    Tri,
    /// `plane px py pz nx ny nz`: a plane through a point, with its normal.
    Plane,
    /// `point px py pz r g b`: a point light.
    Point,
    /// `directional dx dy dz r g b`: a directional light.
    Directional,
}

/// How a keyword is spelled.
pub open spec fn keyword_bytes(k: Keyword) -> Seq<u8> {
    match k {
        Keyword::Size => seq!['s' as u8, 'i' as u8, 'z' as u8, 'e' as u8],
        Keyword::Output => seq!['o' as u8, 'u' as u8, 't' as u8, 'p' as u8, 'u' as u8, 't' as u8],
        Keyword::Camera => seq!['c' as u8, 'a' as u8, 'm' as u8, 'e' as u8, 'r' as u8, 'a' as u8],
        Keyword::Ambient => seq![
            'a' as u8, 'm' as u8, 'b' as u8, 'i' as u8, 'e' as u8, 'n' as u8, 't' as u8,
        ],
        Keyword::MaxDepth => seq![
            'm' as u8, 'a' as u8, 'x' as u8, 'd' as u8, 'e' as u8, 'p' as u8, 't' as u8, 'h' as u8,
        ],
        Keyword::MaxVerts => seq![
            'm' as u8, 'a' as u8, 'x' as u8, 'v' as u8, 'e' as u8, 'r' as u8, 't' as u8, 's' as u8,
        ],
        Keyword::Vertex => seq!['v' as u8, 'e' as u8, 'r' as u8, 't' as u8, 'e' as u8, 'x' as u8],
        Keyword::Diffuse => seq![
            'd' as u8, 'i' as u8, 'f' as u8, 'f' as u8, 'u' as u8, 's' as u8, 'e' as u8,
        ],
        Keyword::Specular => seq![
            's' as u8, 'p' as u8, 'e' as u8, 'c' as u8, 'u' as u8, 'l' as u8, 'a' as u8, 'r' as u8,
        ],
        Keyword::Shininess => seq![
            's' as u8, 'h' as u8, 'i' as u8, 'n' as u8, 'i' as u8, 'n' as u8, 'e' as u8, 's' as u8,
            's' as u8,
        ],
        Keyword::Sphere => seq!['s' as u8, 'p' as u8, 'h' as u8, 'e' as u8, 'r' as u8, 'e' as u8],
        Keyword::Tri => seq!['t' as u8, 'r' as u8, 'i' as u8],
        Keyword::Plane => seq!['p' as u8, 'l' as u8, 'a' as u8, 'n' as u8, 'e' as u8],
        Keyword::Point => seq!['p' as u8, 'o' as u8, 'i' as u8, 'n' as u8, 't' as u8],
        Keyword::Directional => seq![
            'd' as u8, 'i' as u8, 'r' as u8, 'e' as u8, 'c' as u8, 't' as u8, 'i' as u8, 'o' as u8,
            'n' as u8, 'a' as u8, 'l' as u8,
        ],
    }
}

/// The keyword spelled `w`, if any.
pub open spec fn keyword_of(w: Seq<u8>) -> Option<Keyword> {
    if w == keyword_bytes(Keyword::Size) {
        Some(Keyword::Size)
    } else if w == keyword_bytes(Keyword::Output) {
        Some(Keyword::Output)
    } else if w == keyword_bytes(Keyword::Camera) {
        Some(Keyword::Camera)
    } else if w == keyword_bytes(Keyword::Ambient) {
        Some(Keyword::Ambient)
    } else if w == keyword_bytes(Keyword::MaxDepth) {
        Some(Keyword::MaxDepth)
    } else if w == keyword_bytes(Keyword::MaxVerts) {
        Some(Keyword::MaxVerts)
    } else if w == keyword_bytes(Keyword::Vertex) {
        Some(Keyword::Vertex)
    } else if w == keyword_bytes(Keyword::Diffuse) {
        Some(Keyword::Diffuse)
    } else if w == keyword_bytes(Keyword::Specular) {
        Some(Keyword::Specular)
    } else if w == keyword_bytes(Keyword::Shininess) {
        Some(Keyword::Shininess)
    } else if w == keyword_bytes(Keyword::Sphere) {
        Some(Keyword::Sphere)
    } else if w == keyword_bytes(Keyword::Tri) {
        Some(Keyword::Tri)
    } else if w == keyword_bytes(Keyword::Plane) {
        Some(Keyword::Plane)
    } else if w == keyword_bytes(Keyword::Point) {
        Some(Keyword::Point)
    } else if w == keyword_bytes(Keyword::Directional) {
        Some(Keyword::Directional)
    } else {
        None
    }
}

/// The number of space-separated fields that follow a keyword. The path of
/// `output` is one field, spaces and all.
pub open spec fn arity(k: Keyword) -> nat {
    match k {
        Keyword::Size => 2,
        Keyword::Output => 1,
        Keyword::Camera => 10,
        Keyword::Ambient => 3,
        Keyword::MaxDepth => 1,
        Keyword::MaxVerts => 1,
        Keyword::Vertex => 3,
        Keyword::Diffuse => 3,
        Keyword::Specular => 3,
        Keyword::Shininess => 1,
        Keyword::Sphere => 4,
        Keyword::Tri => 3,
        Keyword::Plane => 6,
        Keyword::Point => 6,
        Keyword::Directional => 6,
    }
}

/// For a keyword whose fields are unsigned integers, the largest value each
/// may take.
pub open spec fn integer_bound(k: Keyword) -> Option<u64> {
    match k {
        Keyword::Size => Some(0xffff_ffff),
        Keyword::Output => None,
        Keyword::Camera => None,
        Keyword::Ambient => None,
        Keyword::MaxDepth => Some(0xffff_ffff),
        Keyword::MaxVerts => Some(0xffff_ffff),
        Keyword::Vertex => None,
        Keyword::Diffuse => None,
        Keyword::Specular => None,
        Keyword::Shininess => None,
        Keyword::Sphere => None,
        Keyword::Tri => Some(0xffff_ffff_ffff_ffff),
        Keyword::Plane => None,
        Keyword::Point => None,
        Keyword::Directional => None,
    }
}

/// Why a line of a scene file is refused.
#[derive(Debug, PartialEq, Eq)]
pub enum ParseError {
    /// The line opens with a word that is no keyword.
    UnknownDirective(Vec<u8>),
    /// The keyword is followed by the wrong number of fields.
    WrongFieldCount(Keyword),
    /// An integer field is malformed or too large.
    BadInteger(Keyword),
    /// `size` gives a zero width or height.
    ZeroSize,
    /// `output` gives no path.
    EmptyOutput,
    /// `vertex` would take the pool beyond `maxverts`.
    TooManyVertices,
    /// `tri` names a vertex that the pool does not hold.
    VertexIndexOutOfBounds,
}

/// A line to be skipped: blank, or a comment.
pub open spec fn is_ignored(line: Seq<u8>) -> bool {
    trim(line).len() == 0 || trim(line)[0] == 0x23
}

/// The keyword field of a line, without surrounding whitespace.
pub open spec fn keyword_field(line: Seq<u8>) -> Seq<u8> {
    trim(split_fields(line)[0])
}

/// What follows the keyword field of a line, without surrounding whitespace.
pub open spec fn rest_of(line: Seq<u8>) -> Seq<u8> {
    trim(line.subrange(split_fields(line)[0].len() as int, line.len() as int))
}

/// The fields that follow keyword `k` when the rest of its line is `rest`.
pub open spec fn fields_of(k: Keyword, rest: Seq<u8>) -> Seq<Seq<u8>> {
    if k == Keyword::Output {
        seq![rest]
    } else {
        split_fields(rest)
    }
}

/// Every field is an unsigned decimal integer no larger than `max`.
pub open spec fn all_within(fields: Seq<Seq<u8>>, max: u64) -> bool {
    forall|i: int| 0 <= i < fields.len() ==> is_decimal_within(#[trigger] fields[i], max as nat)
}

/// The values of integer fields.
pub open spec fn values_of(fields: Seq<Seq<u8>>) -> Seq<u64> {
    fields.map_values(|f: Seq<u8>| decimal_value(f) as u64)
}

/// The verdict on the fields of keyword `k` when the rest of its line is
/// `rest`: the error, or the values of its integer fields (none for a
/// keyword whose fields are not integers).
pub open spec fn directive_check(k: Keyword, rest: Seq<u8>) -> Result<Seq<u64>, ParseError> {
    let fields = fields_of(k, rest);
    if k == Keyword::Output {
        if rest.len() == 0 {
            Err(ParseError::EmptyOutput)
        } else {
            Ok(seq![])
        }
    } else if fields.len() != arity(k) {
        Err(ParseError::WrongFieldCount(k))
    } else {
        match integer_bound(k) {
            None => Ok(seq![]),
            Some(max) => if !all_within(fields, max) {
                Err(ParseError::BadInteger(k))
            } else if k == Keyword::Size && (values_of(fields)[0] == 0 || values_of(fields)[1]
                == 0) {
                Err(ParseError::ZeroSize)
            } else {
                Ok(values_of(fields))
            },
        }
    }
}

/// One meaningful line of a scene file: its keyword, its fields as written,
/// and the values of its integer fields.
#[derive(Debug, PartialEq, Eq)]
pub struct Directive {
    pub keyword: Keyword,
    pub fields: Vec<Vec<u8>>,
    pub values: Vec<u64>,
}

impl Directive {
    /// The directive has as many fields as its keyword takes, and a value
    /// for each of them when they are integers.
    pub open spec fn wf(&self) -> bool {
        &&& self.fields@.len() == arity(self.keyword)
        &&& integer_bound(self.keyword) matches Some(max) ==> {
            &&& self.values@.len() == arity(self.keyword)
            &&& forall|i: int| 0 <= i < self.values@.len() ==> #[trigger] self.values@[i] <= max
        }
        &&& self.keyword == Keyword::Size ==> self.values@[0] > 0 && self.values@[1] > 0
    }
}

fn keyword_text(k: Keyword) -> (r: Vec<u8>)
    ensures
        r@ == keyword_bytes(k),
{
    let r = match k {
        Keyword::Size => vec!['s' as u8, 'i' as u8, 'z' as u8, 'e' as u8],
        Keyword::Output => vec!['o' as u8, 'u' as u8, 't' as u8, 'p' as u8, 'u' as u8, 't' as u8],
        Keyword::Camera => vec!['c' as u8, 'a' as u8, 'm' as u8, 'e' as u8, 'r' as u8, 'a' as u8],
        Keyword::Ambient => vec![
            'a' as u8, 'm' as u8, 'b' as u8, 'i' as u8, 'e' as u8, 'n' as u8, 't' as u8,
        ],
        Keyword::MaxDepth => vec![
            'm' as u8, 'a' as u8, 'x' as u8, 'd' as u8, 'e' as u8, 'p' as u8, 't' as u8, 'h' as u8,
        ],
        Keyword::MaxVerts => vec![
            'm' as u8, 'a' as u8, 'x' as u8, 'v' as u8, 'e' as u8, 'r' as u8, 't' as u8, 's' as u8,
        ],
        Keyword::Vertex => vec!['v' as u8, 'e' as u8, 'r' as u8, 't' as u8, 'e' as u8, 'x' as u8],
        Keyword::Diffuse => vec![
            'd' as u8, 'i' as u8, 'f' as u8, 'f' as u8, 'u' as u8, 's' as u8, 'e' as u8,
        ],
        Keyword::Specular => vec![
            's' as u8, 'p' as u8, 'e' as u8, 'c' as u8, 'u' as u8, 'l' as u8, 'a' as u8, 'r' as u8,
        ],
        Keyword::Shininess => vec![
            's' as u8, 'h' as u8, 'i' as u8, 'n' as u8, 'i' as u8, 'n' as u8, 'e' as u8, 's' as u8,
            's' as u8,
        ],
        Keyword::Sphere => vec!['s' as u8, 'p' as u8, 'h' as u8, 'e' as u8, 'r' as u8, 'e' as u8],
        Keyword::Tri => vec!['t' as u8, 'r' as u8, 'i' as u8],
        Keyword::Plane => vec!['p' as u8, 'l' as u8, 'a' as u8, 'n' as u8, 'e' as u8],
        Keyword::Point => vec!['p' as u8, 'o' as u8, 'i' as u8, 'n' as u8, 't' as u8],
        Keyword::Directional => vec![
            'd' as u8, 'i' as u8, 'r' as u8, 'e' as u8, 'c' as u8, 't' as u8, 'i' as u8, 'o' as u8,
            'n' as u8, 'a' as u8, 'l' as u8,
        ],
    };
    proof {
        assert(r@ =~= keyword_bytes(k));
    }
    r
}

fn same_bytes(a: &[u8], b: &[u8]) -> (r: bool)
    ensures
        r == (a@ == b@),
{
    if a.len() != b.len() {
        return false;
    }
    let mut i: usize = 0;
    while i < a.len()
        invariant
            a@.len() == b@.len(),
            i <= a@.len(),
            forall|j: int| 0 <= j < i ==> a@[j] == b@[j],
        decreases a@.len() - i,
    {
        if a[i] != b[i] {
            return false;
        }
        i = i + 1;
    }
    proof {
        assert(a@ =~= b@);
    }
    true
}

fn lookup_keyword(w: &[u8]) -> (r: Option<Keyword>)
    ensures
        r == keyword_of(w@),
{
    if same_bytes(w, keyword_text(Keyword::Size).as_slice()) {
        Some(Keyword::Size)
    } else if same_bytes(w, keyword_text(Keyword::Output).as_slice()) {
        Some(Keyword::Output)
    } else if same_bytes(w, keyword_text(Keyword::Camera).as_slice()) {
        Some(Keyword::Camera)
    } else if same_bytes(w, keyword_text(Keyword::Ambient).as_slice()) {
        Some(Keyword::Ambient)
    } else if same_bytes(w, keyword_text(Keyword::MaxDepth).as_slice()) {
        Some(Keyword::MaxDepth)
    } else if same_bytes(w, keyword_text(Keyword::MaxVerts).as_slice()) {
        Some(Keyword::MaxVerts)
    } else if same_bytes(w, keyword_text(Keyword::Vertex).as_slice()) {
        Some(Keyword::Vertex)
    } else if same_bytes(w, keyword_text(Keyword::Diffuse).as_slice()) {
        Some(Keyword::Diffuse)
    } else if same_bytes(w, keyword_text(Keyword::Specular).as_slice()) {
        Some(Keyword::Specular)
    } else if same_bytes(w, keyword_text(Keyword::Shininess).as_slice()) {
        Some(Keyword::Shininess)
    } else if same_bytes(w, keyword_text(Keyword::Sphere).as_slice()) {
        Some(Keyword::Sphere)
    } else if same_bytes(w, keyword_text(Keyword::Tri).as_slice()) {
        Some(Keyword::Tri)
    } else if same_bytes(w, keyword_text(Keyword::Plane).as_slice()) {
        Some(Keyword::Plane)
    } else if same_bytes(w, keyword_text(Keyword::Point).as_slice()) {
        Some(Keyword::Point)
    } else if same_bytes(w, keyword_text(Keyword::Directional).as_slice()) {
        Some(Keyword::Directional)
    } else {
        None
    }
}

fn arity_of(k: Keyword) -> (n: usize)
    ensures
        n == arity(k),
{
    match k {
        Keyword::Size => 2,
        Keyword::Output => 1,
        Keyword::Camera => 10,
        Keyword::Ambient => 3,
        Keyword::MaxDepth => 1,
        Keyword::MaxVerts => 1,
        Keyword::Vertex => 3,
        Keyword::Diffuse => 3,
        Keyword::Specular => 3,
        Keyword::Shininess => 1,
        Keyword::Sphere => 4,
        Keyword::Tri => 3,
        Keyword::Plane => 6,
        Keyword::Point => 6,
        Keyword::Directional => 6,
    }
}

fn bound_of(k: Keyword) -> (b: Option<u64>)
    ensures
        b == integer_bound(k),
{
    match k {
        Keyword::Size => Some(0xffff_ffff),
        Keyword::Output => None,
        Keyword::Camera => None,
        Keyword::Ambient => None,
        Keyword::MaxDepth => Some(0xffff_ffff),
        Keyword::MaxVerts => Some(0xffff_ffff),
        Keyword::Vertex => None,
        Keyword::Diffuse => None,
        Keyword::Specular => None,
        Keyword::Shininess => None,
        Keyword::Sphere => None,
        Keyword::Tri => Some(0xffff_ffff_ffff_ffff),
        Keyword::Plane => None,
        Keyword::Point => None,
        Keyword::Directional => None,
    }
}

proof fn lemma_split_state_lengths(s: Seq<u8>)
    ensures
        split_state(s).1.len() <= s.len(),
        split_state(s).0.len() > 0 ==> split_state(s).0[0].len() <= s.len(),
    decreases s.len(),
{
    if s.len() > 0 {
        lemma_split_state_lengths(s.drop_last());
    }
}

/// Checks the fields of keyword `k` (not `output`) that `rest` holds.
fn check_fields(k: Keyword, rest: &[u8]) -> (r: Result<(Vec<Vec<u8>>, Vec<u64>), ParseError>)
    requires
        k != Keyword::Output,
    ensures
        match directive_check(k, rest@) {
            Err(e) => r == Err::<(Vec<Vec<u8>>, Vec<u64>), ParseError>(e),
            Ok(vals) => r matches Ok((f, v)) && texts(f@) == fields_of(k, rest@) && v@ == vals,
        },
{
    let fields = split_spaces(rest);
    if fields.len() != arity_of(k) {
        return Err(ParseError::WrongFieldCount(k));
    }
    let max = match bound_of(k) {
        None => {
            let no_values: Vec<u64> = Vec::new();
            proof {
                assert(no_values@ =~= seq![]);
            }
            return Ok((fields, no_values));
        },
        Some(max) => max,
    };
    let n: usize = fields.len();
    let mut values: Vec<u64> = Vec::with_capacity(n);
    let mut i: usize = 0;
    while i < n
        invariant
            k != Keyword::Output,
            integer_bound(k) == Some(max),
            n == arity(k),
            n == fields@.len(),
            texts(fields@) == split_fields(rest@),
            i <= n,
            values@.len() == i,
            forall|j: int|
                0 <= j < i ==> is_decimal_within(#[trigger] fields@[j]@, max as nat)
                    && values@[j] == decimal_value(fields@[j]@),
        decreases n - i,
    {
        match parse_decimal(fields[i].as_slice(), max) {
            None => {
                proof {
                    assert(texts(fields@)[i as int] == fields@[i as int]@);
                    assert(fields_of(k, rest@) == split_fields(rest@));
                    assert(!is_decimal_within(fields_of(k, rest@)[i as int], max as nat));
                    assert(!all_within(fields_of(k, rest@), max));
                }
                return Err(ParseError::BadInteger(k));
            },
            Some(v) => {
                values.push(v);
            },
        }
        i = i + 1;
    }
    proof {
        let fs = texts(fields@);
        assert forall|j: int| 0 <= j < fs.len() implies is_decimal_within(
            #[trigger] fs[j],
            max as nat,
        ) by {
            assert(fs[j] == fields@[j]@);
        }
        assert(values@ =~= values_of(fs));
    }
    if k == Keyword::Size && (values[0] == 0 || values[1] == 0) {
        return Err(ParseError::ZeroSize);
    }
    Ok((fields, values))
}

/// Reads one line of a scene file: `None` for a blank or comment line, else
/// the directive that it states, or why it is refused.
pub fn parse_directive(line: &[u8]) -> (r: Result<Option<Directive>, ParseError>)
    ensures
        is_ignored(line@) ==> r matches Ok(None),
        !is_ignored(line@) ==> match keyword_of(keyword_field(line@)) {
            None => r matches Err(ParseError::UnknownDirective(w)) && w@ == keyword_field(line@),
            Some(k) => match directive_check(k, rest_of(line@)) {
                Err(e) => r == Err::<Option<Directive>, ParseError>(e),
                Ok(vals) => r matches Ok(Some(d)) && d.keyword == k && texts(d.fields@)
                    == fields_of(k, rest_of(line@)) && d.values@ == vals,
            },
        },
        r matches Ok(Some(d)) ==> d.wf(),
{
    let t = trimmed(line);
    if t.len() == 0 || t[0] == 0x23 {
        return Ok(None);
    }
    let parts = split_spaces(line);
    proof {
        lemma_split_state_lengths(line@);
        assert(texts(parts@).len() == parts@.len());
        assert(texts(parts@)[0] == parts@[0]@);
    }
    let first_len: usize = parts[0].len();
    let word = trimmed(parts[0].as_slice());
    let k = match lookup_keyword(word.as_slice()) {
        None => {
            return Err(ParseError::UnknownDirective(word));
        },
        Some(k) => k,
    };
    let tail = copy_range(line, first_len, line.len());
    let rest = trimmed(tail.as_slice());
    if k == Keyword::Output {
        if rest.len() == 0 {
            return Err(ParseError::EmptyOutput);
        }
        let ghost rest_view = rest@;
        let fields: Vec<Vec<u8>> = vec![rest];
        let values: Vec<u64> = Vec::new();
        proof {
            assert(texts(fields@) =~= seq![rest_view]);
            assert(values@ =~= seq![]);
        }
        return Ok(Some(Directive { keyword: k, fields, values }));
    }
    match check_fields(k, rest.as_slice()) {
        Err(e) => Err(e),
        Ok((fields, values)) => {
            proof {
                if let Some(max) = integer_bound(k) {
                    let fs = fields_of(k, rest@);
                    assert forall|i: int| 0 <= i < values@.len() implies #[trigger] values@[i]
                        <= max by {
                        assert(is_decimal_within(fs[i], max as nat));
                    }
                }
            }
            Ok(Some(Directive { keyword: k, fields, values }))
        },
    }
}

// ----------------------------------------------------------------------------
// The scene that a file describes
// ----------------------------------------------------------------------------

/// The shape of a surface primitive.
#[derive(Clone, Copy, Debug, PartialEq, Eq, Structural)]
pub enum PrimitiveKind {
    /// Fields: centre and radius.
    Sphere,
    /// Fields: the three vertices, one after the other.
    Triangle,
    /// Fields: a point of the plane and its normal.
    Plane,
}

/// The kind of a light source.
#[derive(Clone, Copy, Debug, PartialEq, Eq, Structural)]
pub enum LightKind {
    /// Fields: position and colour.
    Point,
    /// Fields: direction and colour.
    Directional,
}

/// The surface material in force when a primitive is declared.
#[derive(Debug)]
pub struct Material {
    pub diffuse: Vec<Vec<u8>>,
    pub specular: Vec<Vec<u8>>,
    pub shininess: Vec<u8>,
}

/// A surface primitive with its numeric fields as written.
#[derive(Debug)]
pub struct Primitive {
    pub kind: PrimitiveKind,
    pub fields: Vec<Vec<u8>>,
    pub material: Material,
}

/// A light source with its numeric fields as written.
#[derive(Debug)]
pub struct LightSource {
    pub kind: LightKind,
    pub fields: Vec<Vec<u8>>,
}

/// Everything that a scene file sets, numeric fields as written.
#[derive(Debug)]
pub struct SceneFile {
    pub width: u32,
    pub height: u32,
    pub output_file: Vec<u8>,
    /// Position, target, up vector and field of view: ten fields.
    pub camera: Vec<Vec<u8>>,
    pub ambient: Vec<Vec<u8>>,
    pub maxdepth: u32,
    pub maxverts: u32,
    pub primitives: Vec<Primitive>,
    pub lights: Vec<LightSource>,
}

/// A material as byte sequences.
pub struct MaterialView {
    pub diffuse: Seq<Seq<u8>>,
    pub specular: Seq<Seq<u8>>,
    pub shininess: Seq<u8>,
}

/// A primitive as byte sequences.
pub struct PrimitiveView {
    pub kind: PrimitiveKind,
    pub fields: Seq<Seq<u8>>,
    pub material: MaterialView,
}

/// A light source as byte sequences.
pub struct LightView {
    pub kind: LightKind,
    pub fields: Seq<Seq<u8>>,
}

/// A scene as byte sequences.
pub struct SceneView {
    pub width: u32,
    pub height: u32,
    pub output_file: Seq<u8>,
    pub camera: Seq<Seq<u8>>,
    pub ambient: Seq<Seq<u8>>,
    pub maxdepth: u32,
    pub maxverts: u32,
    pub primitives: Seq<PrimitiveView>,
    pub lights: Seq<LightView>,
}

/// The parse state as byte sequences: the current material and the vertex
/// pool, three fields per vertex.
pub struct StateView {
    pub material: MaterialView,
    pub vertices: Seq<Seq<Seq<u8>>>,
}

impl View for Material {
    type V = MaterialView;

    open spec fn view(&self) -> MaterialView {
        MaterialView {
            diffuse: texts(self.diffuse@),
            specular: texts(self.specular@),
            shininess: self.shininess@,
        }
    }
}

impl View for Primitive {
    type V = PrimitiveView;

    open spec fn view(&self) -> PrimitiveView {
        PrimitiveView { kind: self.kind, fields: texts(self.fields@), material: self.material@ }
    }
}

impl View for LightSource {
    type V = LightView;

    open spec fn view(&self) -> LightView {
        LightView { kind: self.kind, fields: texts(self.fields@) }
    }
}

impl View for SceneFile {
    type V = SceneView;

    open spec fn view(&self) -> SceneView {
        SceneView {
            width: self.width,
            height: self.height,
            output_file: self.output_file@,
            camera: texts(self.camera@),
            ambient: texts(self.ambient@),
            maxdepth: self.maxdepth,
            maxverts: self.maxverts,
            primitives: self.primitives@.map_values(|p: Primitive| p@),
            lights: self.lights@.map_values(|l: LightSource| l@),
        }
    }
}

/// A numeric field that reads as zero.
pub open spec fn zero_field() -> Seq<u8> {
    seq!['0' as u8]
}

/// The scene before any line is read: 800 by 600 pixels into `output.png`,
/// a camera at the origin looking along +z with +y up and a 60-degree field
/// of view, no ambient light, a recursion depth of one, an empty vertex
/// pool, and nothing in view.
pub open spec fn initial_scene() -> SceneView {
    SceneView {
        width: 800,
        height: 600,
        output_file: seq![
            'o' as u8,
            'u' as u8,
            't' as u8,
            'p' as u8,
            'u' as u8,
            't' as u8,
            '.' as u8,
            'p' as u8,
            'n' as u8,
            'g' as u8,
        ],
        camera: seq![
            zero_field(),
            zero_field(),
            zero_field(),
            zero_field(),
            zero_field(),
            seq!['1' as u8],
            zero_field(),
            seq!['1' as u8],
            zero_field(),
            seq!['6' as u8, '0' as u8],
        ],
        ambient: seq![zero_field(), zero_field(), zero_field()],
        maxdepth: 1,
        maxverts: 0,
        primitives: seq![],
        lights: seq![],
    }
}

/// The parse state before any line is read: a black, matte material and no
/// vertices.
pub open spec fn initial_state() -> StateView {
    StateView {
        material: MaterialView {
            diffuse: seq![zero_field(), zero_field(), zero_field()],
            specular: seq![zero_field(), zero_field(), zero_field()],
            shininess: zero_field(),
        },
        vertices: seq![],
    }
}

/// What a directive with keyword `k`, fields `f` and integer values `v` does
/// to the parse state and the scene, or why it is refused.
pub open spec fn step(st: StateView, sc: SceneView, k: Keyword, f: Seq<Seq<u8>>, v: Seq<u64>) -> Result<
    (StateView, SceneView),
    ParseError,
> {
    match k {
        Keyword::Size => Ok((st, SceneView { width: v[0] as u32, height: v[1] as u32, ..sc })),
        Keyword::Output => Ok((st, SceneView { output_file: f[0], ..sc })),
        Keyword::Camera => Ok((st, SceneView { camera: f, ..sc })),
        Keyword::Ambient => Ok((st, SceneView { ambient: f, ..sc })),
        Keyword::MaxDepth => Ok((st, SceneView { maxdepth: v[0] as u32, ..sc })),
        Keyword::MaxVerts => Ok((st, SceneView { maxverts: v[0] as u32, ..sc })),
        Keyword::Vertex => if st.vertices.len() >= sc.maxverts {
            Err(ParseError::TooManyVertices)
        } else {
            Ok((StateView { vertices: st.vertices.push(f), ..st }, sc))
        },
        Keyword::Diffuse => Ok(
            (StateView { material: MaterialView { diffuse: f, ..st.material }, ..st }, sc),
        ),
        Keyword::Specular => Ok(
            (StateView { material: MaterialView { specular: f, ..st.material }, ..st }, sc),
        ),
        Keyword::Shininess => Ok(
            (StateView { material: MaterialView { shininess: f[0], ..st.material }, ..st }, sc),
        ),
        Keyword::Sphere => Ok(
            (
                st,
                SceneView {
                    primitives: sc.primitives.push(
                        PrimitiveView {
                            kind: PrimitiveKind::Sphere,
                            fields: f,
                            material: st.material,
                        },
                    ),
                    ..sc
                },
            ),
        ),
        Keyword::Plane => Ok(
            (
                st,
                SceneView {
                    primitives: sc.primitives.push(
                        PrimitiveView {
                            kind: PrimitiveKind::Plane,
                            fields: f,
                            material: st.material,
                        },
                    ),
                    ..sc
                },
            ),
        ),
        Keyword::Tri => if v[0] >= st.vertices.len() || v[1] >= st.vertices.len() || v[2]
            >= st.vertices.len() {
            Err(ParseError::VertexIndexOutOfBounds)
        } else {
            Ok(
                (
                    st,
                    SceneView {
                        primitives: sc.primitives.push(
                            PrimitiveView {
                                kind: PrimitiveKind::Triangle,
                                fields: st.vertices[v[0] as int] + st.vertices[v[1] as int]
                                    + st.vertices[v[2] as int],
                                material: st.material,
                            },
                        ),
                        ..sc
                    },
                ),
            )
        },
        Keyword::Point => Ok(
            (
                st,
                SceneView {
                    lights: sc.lights.push(LightView { kind: LightKind::Point, fields: f }),
                    ..sc
                },
            ),
        ),
        Keyword::Directional => Ok(
            (
                st,
                SceneView {
                    lights: sc.lights.push(LightView { kind: LightKind::Directional, fields: f }),
                    ..sc
                },
            ),
        ),
    }
}

/// A material has three diffuse and three specular fields.
pub open spec fn material_wf(m: MaterialView) -> bool {
    m.diffuse.len() == 3 && m.specular.len() == 3
}

/// The number of fields of a primitive of each kind.
pub open spec fn primitive_arity(kind: PrimitiveKind) -> nat {
    match kind {
        PrimitiveKind::Sphere => 4,
        PrimitiveKind::Triangle => 9,
        PrimitiveKind::Plane => 6,
    }
}

/// A primitive has the fields of its kind and a well-formed material.
pub open spec fn primitive_wf(p: PrimitiveView) -> bool {
    p.fields.len() == primitive_arity(p.kind) && material_wf(p.material)
}

/// A scene has a non-empty image, ten camera fields, three ambient fields,
/// well-formed primitives and six fields per light.
pub open spec fn scene_wf(sc: SceneView) -> bool {
    &&& sc.width > 0
    &&& sc.height > 0
    &&& sc.camera.len() == 10
    &&& sc.ambient.len() == 3
    &&& forall|i: int| 0 <= i < sc.primitives.len() ==> primitive_wf(#[trigger] sc.primitives[i])
    &&& forall|i: int| 0 <= i < sc.lights.len() ==> (#[trigger] sc.lights[i]).fields.len() == 6
}

/// A parse state has a well-formed material and three fields per vertex.
pub open spec fn state_wf(st: StateView) -> bool {
    &&& material_wf(st.material)
    &&& forall|i: int| 0 <= i < st.vertices.len() ==> (#[trigger] st.vertices[i]).len() == 3
}

/// Every directive keeps the parse state and the scene well formed: a scene
/// read line by line from the initial one always has the fields that its
/// parts need.
pub proof fn lemma_step_preserves_wf(
    st: StateView,
    sc: SceneView,
    k: Keyword,
    f: Seq<Seq<u8>>,
    v: Seq<u64>,
)
    requires
        state_wf(st),
        scene_wf(sc),
        f.len() == arity(k),
        integer_bound(k) is Some ==> v.len() == arity(k),
        k == Keyword::Size ==> 0 < v[0] <= 0xffff_ffff && 0 < v[1] <= 0xffff_ffff,
    ensures
        step(st, sc, k, f, v) matches Ok((st2, sc2)) ==> state_wf(st2) && scene_wf(sc2),
{
    match step(st, sc, k, f, v) {
        Ok((st2, sc2)) => {
            if k == Keyword::Vertex {
                assert forall|i: int| 0 <= i < st2.vertices.len() implies (
                #[trigger] st2.vertices[i]).len() == 3 by {
                    if i < st.vertices.len() {
                        assert(st2.vertices[i] == st.vertices[i]);
                    }
                }
            }
            if k == Keyword::Sphere || k == Keyword::Plane || k == Keyword::Tri {
                assert forall|i: int| 0 <= i < sc2.primitives.len() implies primitive_wf(
                    #[trigger] sc2.primitives[i],
                ) by {
                    if i < sc.primitives.len() {
                        assert(sc2.primitives[i] == sc.primitives[i]);
                    }
                }
            }
            if k == Keyword::Point || k == Keyword::Directional {
                assert forall|i: int| 0 <= i < sc2.lights.len() implies (
                #[trigger] sc2.lights[i]).fields.len() == 6 by {
                    if i < sc.lights.len() {
                        assert(sc2.lights[i] == sc.lights[i]);
                    }
                }
            }
        },
        Err(_) => {},
    }
}

fn zero() -> (r: Vec<u8>)
    ensures
        r@ == zero_field(),
{
    let r = vec!['0' as u8];
    proof {
        assert(r@ =~= zero_field());
    }
    r
}

fn one() -> (r: Vec<u8>)
    ensures
        r@ == seq!['1' as u8],
{
    let r = vec!['1' as u8];
    proof {
        assert(r@ =~= seq!['1' as u8]);
    }
    r
}

fn sixty() -> (r: Vec<u8>)
    ensures
        r@ == seq!['6' as u8, '0' as u8],
{
    let r = vec!['6' as u8, '0' as u8];
    proof {
        assert(r@ =~= seq!['6' as u8, '0' as u8]);
    }
    r
}

fn zero_triple() -> (r: Vec<Vec<u8>>)
    ensures
        texts(r@) == seq![zero_field(), zero_field(), zero_field()],
{
    let r = vec![zero(), zero(), zero()];
    proof {
        assert(texts(r@) =~= seq![zero_field(), zero_field(), zero_field()]);
    }
    r
}

/// A copy of a sequence of fields.
fn copy_fields(v: &Vec<Vec<u8>>) -> (r: Vec<Vec<u8>>)
    ensures
        texts(r@) == texts(v@),
{
    let mut r: Vec<Vec<u8>> = Vec::new();
    append_fields(&mut r, v);
    proof {
        assert(texts(r@) =~= texts(v@));
    }
    r
}

/// Appends a copy of the fields of `v` to `r`.
fn append_fields(r: &mut Vec<Vec<u8>>, v: &Vec<Vec<u8>>)
    ensures
        texts(final(r)@) == texts(old(r)@) + texts(v@),
{
    let n: usize = v.len();
    let mut i: usize = 0;
    let ghost start = r@;
    while i < n
        invariant
            n == v@.len(),
            i <= n,
            r@.len() == start.len() + i,
            forall|j: int| 0 <= j < start.len() ==> (#[trigger] r@[j])@ == start[j]@,
            forall|j: int| 0 <= j < i ==> (#[trigger] r@[start.len() + j])@ == v@[j]@,
        decreases n - i,
    {
        let f = copy_range(v[i].as_slice(), 0, v[i].len());
        proof {
            assert(v[i as int]@.subrange(0, v[i as int]@.len() as int) =~= v[i as int]@);
        }
        r.push(f);
        i = i + 1;
    }
    proof {
        assert forall|j: int| 0 <= j < r@.len() implies texts(r@)[j] == (texts(start)
            + texts(v@))[j] by {
            if j >= start.len() {
                assert(r@[start.len() + (j - start.len())]@ == v@[j - start.len()]@);
            }
        }
        assert(texts(r@) =~= texts(start) + texts(v@));
    }
}

impl Material {
    fn copy(&self) -> (r: Material)
        ensures
            r@ == self@,
    {
        proof {
            assert(self.shininess@.subrange(0, self.shininess@.len() as int) =~= self.shininess@);
        }
        Material {
            diffuse: copy_fields(&self.diffuse),
            specular: copy_fields(&self.specular),
            shininess: copy_range(self.shininess.as_slice(), 0, self.shininess.len()),
        }
    }
}

impl SceneFile {
    /// The scene before any line is read.
    pub fn new() -> (r: SceneFile)
        ensures
            r@ == initial_scene(),
            scene_wf(r@),
    {
        let output_file = vec![
            'o' as u8,
            'u' as u8,
            't' as u8,
            'p' as u8,
            'u' as u8,
            't' as u8,
            '.' as u8,
            'p' as u8,
            'n' as u8,
            'g' as u8,
        ];
        let camera = vec![
            zero(),
            zero(),
            zero(),
            zero(),
            zero(),
            one(),
            zero(),
            one(),
            zero(),
            sixty(),
        ];
        let r = SceneFile {
            width: 800,
            height: 600,
            output_file,
            camera,
            ambient: zero_triple(),
            maxdepth: 1,
            maxverts: 0,
            primitives: Vec::new(),
            lights: Vec::new(),
        };
        proof {
            assert(r@.output_file =~= initial_scene().output_file);
            assert(r@.camera =~= initial_scene().camera);
            assert(r@.primitives =~= seq![]);
            assert(r@.lights =~= seq![]);
        }
        r
    }
}

/// The state of a scene-file parse: the material that the next primitive
/// takes, and the vertex pool that triangles index.
#[derive(Debug)]
pub struct ParsedConfigState {
    material: Material,
    vertices: Vec<Vec<Vec<u8>>>,
}

impl View for ParsedConfigState {
    type V = StateView;

    closed spec fn view(&self) -> StateView {
        StateView {
            material: self.material@,
            vertices: self.vertices@.map_values(|v: Vec<Vec<u8>>| texts(v@)),
        }
    }
}

impl ParsedConfigState {
    /// The state before any line is read.
    pub fn new() -> (r: ParsedConfigState)
        ensures
            r@ == initial_state(),
            state_wf(r@),
    {
        let r = ParsedConfigState {
            material: Material { diffuse: zero_triple(), specular: zero_triple(), shininess: zero() },
            vertices: Vec::new(),
        };
        proof {
            assert(r@.vertices =~= seq![]);
        }
        r
    }

    /// Carries out one directive on the parse state and the scene.
    pub fn apply(&mut self, d: Directive, scene: &mut SceneFile) -> (r: Result<(), ParseError>)
        requires
            d.wf(),
        ensures
            match step(old(self)@, old(scene)@, d.keyword, texts(d.fields@), d.values@) {
                Ok((st, sc)) => r is Ok && final(self)@ == st && final(scene)@ == sc,
                Err(e) => {
                    &&& r == Err::<(), ParseError>(e)
                    &&& final(self)@ == old(self)@
                    &&& final(scene)@ == old(scene)@
                },
            },
            state_wf(old(self)@) && scene_wf(old(scene)@) ==> state_wf(final(self)@) && scene_wf(
                final(scene)@,
            ),
    {
        proof {
            if state_wf(self@) && scene_wf(scene@) {
                if d.keyword == Keyword::Size {
                    assert(d.values@[0] <= 0xffff_ffff && d.values@[1] <= 0xffff_ffff);
                }
                lemma_step_preserves_wf(self@, scene@, d.keyword, texts(d.fields@), d.values@);
            }
        }
        let ghost f = texts(d.fields@);
        let ghost old_prims = scene.primitives@;
        let ghost old_lights = scene.lights@;
        let Directive { keyword, fields, values } = d;
        match keyword {
            Keyword::Size => {
                scene.width = values[0] as u32;
                scene.height = values[1] as u32;
            },
            Keyword::Output => {
                let mut fields = fields;
                assert(texts(fields@)[0] == fields@[0]@);
                if let Some(path) = fields.pop() {
                    scene.output_file = path;
                }
            },
            Keyword::Camera => {
                scene.camera = fields;
            },
            Keyword::Ambient => {
                scene.ambient = fields;
            },
            Keyword::MaxDepth => {
                scene.maxdepth = values[0] as u32;
            },
            Keyword::MaxVerts => {
                scene.maxverts = values[0] as u32;
            },
            Keyword::Vertex => {
                if self.vertices.len() >= scene.maxverts as usize {
                    return Err(ParseError::TooManyVertices);
                }
                let ghost before = self.vertices@;
                self.vertices.push(fields);
                proof {
                    assert(self@.vertices =~= before.map_values(|v: Vec<Vec<u8>>| texts(v@)).push(
                        f,
                    ));
                }
            },
            Keyword::Diffuse => {
                self.material.diffuse = fields;
            },
            Keyword::Specular => {
                self.material.specular = fields;
            },
            Keyword::Shininess => {
                let mut fields = fields;
                assert(texts(fields@)[0] == fields@[0]@);
                if let Some(s) = fields.pop() {
                    self.material.shininess = s;
                }
            },
            Keyword::Sphere | Keyword::Plane => {
                let kind = if keyword == Keyword::Sphere {
                    PrimitiveKind::Sphere
                } else {
                    PrimitiveKind::Plane
                };
                let material = self.material.copy();
                let p = Primitive { kind, fields, material };
                scene.primitives.push(p);
                proof {
                    assert(scene@.primitives =~= old_prims.map_values(|p: Primitive| p@).push(p@));
                }
            },
            Keyword::Tri => {
                let n: u64 = self.vertices.len() as u64;
                if values[0] >= n || values[1] >= n || values[2] >= n {
                    return Err(ParseError::VertexIndexOutOfBounds);
                }
                let ghost verts = self@.vertices;
                let mut corners: Vec<Vec<u8>> = Vec::new();
                append_fields(&mut corners, &self.vertices[values[0] as usize]);
                append_fields(&mut corners, &self.vertices[values[1] as usize]);
                append_fields(&mut corners, &self.vertices[values[2] as usize]);
                proof {
                    assert(texts(corners@) =~= verts[values[0] as int] + verts[values[1] as int]
                        + verts[values[2] as int]);
                }
                let material = self.material.copy();
                let p = Primitive { kind: PrimitiveKind::Triangle, fields: corners, material };
                scene.primitives.push(p);
                proof {
                    assert(scene@.primitives =~= old_prims.map_values(|p: Primitive| p@).push(p@));
                }
            },
            Keyword::Point | Keyword::Directional => {
                let kind = if keyword == Keyword::Point {
                    LightKind::Point
                } else {
                    LightKind::Directional
                };
                let l = LightSource { kind, fields };
                scene.lights.push(l);
                proof {
                    assert(scene@.lights =~= old_lights.map_values(|l: LightSource| l@).push(l@));
                }
            },
        }
        Ok(())
    }

    /// Reads one line of a scene file into the parse state and the scene.
    pub fn parse_line(&mut self, line: &str, config: &mut SceneFile) -> (r: Result<(), ParseError>)
        ensures
            is_ignored(line.spec_bytes()) ==> {
                &&& r is Ok
                &&& final(self)@ == old(self)@
                &&& final(config)@ == old(config)@
            },
            !is_ignored(line.spec_bytes()) ==> match keyword_of(keyword_field(line.spec_bytes())) {
                None => {
                    &&& r matches Err(ParseError::UnknownDirective(w))
                    &&& w@ == keyword_field(line.spec_bytes())
                    &&& final(self)@ == old(self)@
                    &&& final(config)@ == old(config)@
                },
                Some(k) => match directive_effect(
                    old(self)@,
                    old(config)@,
                    k,
                    rest_of(line.spec_bytes()),
                ) {
                    Ok((st, sc)) => r is Ok && final(self)@ == st && final(config)@ == sc,
                    Err(e) => {
                        &&& r == Err::<(), ParseError>(e)
                        &&& final(self)@ == old(self)@
                        &&& final(config)@ == old(config)@
                    },
                },
            },
            state_wf(old(self)@) && scene_wf(old(config)@) ==> state_wf(final(self)@) && scene_wf(
                final(config)@,
            ),
    {
        match parse_directive(line.as_bytes()) {
            Err(e) => Err(e),
            Ok(None) => Ok(()),
            Ok(Some(d)) => self.apply(d, config),
        }
    }

    /// Reads the two fields of a `size` directive.
    pub fn parse_size(&self, value: &str) -> (r: Result<(u32, u32), ParseError>)
        ensures
            match directive_check(Keyword::Size, value.spec_bytes()) {
                Ok(v) => r == Ok::<(u32, u32), ParseError>((v[0] as u32, v[1] as u32)),
                Err(e) => r == Err::<(u32, u32), ParseError>(e),
            },
    {
        match check_fields(Keyword::Size, value.as_bytes()) {
            Err(e) => Err(e),
            Ok((_, values)) => Ok((values[0] as u32, values[1] as u32)),
        }
    }

    /// Reads the path of an `output` directive: the value without surrounding
    /// whitespace, which must not be empty.
    pub fn parse_output(&self, value: &str) -> (r: Result<Vec<u8>, ParseError>)
        ensures
            trim(value.spec_bytes()).len() == 0 ==> r == Err::<Vec<u8>, ParseError>(
                ParseError::EmptyOutput,
            ),
            trim(value.spec_bytes()).len() > 0 ==> (r matches Ok(p) && p@ == trim(
                value.spec_bytes(),
            )),
    {
        let path = trimmed(value.as_bytes());
        if path.len() == 0 {
            return Err(ParseError::EmptyOutput);
        }
        Ok(path)
    }
}

/// What a line with keyword `k` does when the rest of the line is `rest`:
/// the new parse state and scene, or the error.
pub open spec fn directive_effect(st: StateView, sc: SceneView, k: Keyword, rest: Seq<u8>) -> Result<
    (StateView, SceneView),
    ParseError,
> {
    match directive_check(k, rest) {
        Err(e) => Err(e),
        Ok(vals) => step(st, sc, k, fields_of(k, rest), vals),
    }
}

} // verus!
