use vstd::prelude::*;
use crate::lex::{index_at, number_at, read_index, read_number, skip_spaces, skip_spaces_exec};

verus! {

/// A point or vector in fixed-point coordinates.
#[derive(Clone, Copy, Debug, PartialEq, Eq, Structural)]
pub struct Vec3 {
    pub x: i64,
    pub y: i64,
    pub z: i64,
}

/// One triangle of a mesh: per vertex, a position, a texture coordinate and a normal.
#[derive(Clone, Copy, Debug, PartialEq)]
pub struct ObjFace {
    pub vertices: [Vec3; 3],
    pub texture_vertices: [Vec3; 3],
    pub normals: [Vec3; 3],
}

/// The 1-based position, texture-coordinate and normal indices of one face vertex.
#[derive(Clone, Copy, Debug, PartialEq, Eq, Structural)]
pub struct FaceIndex {
    pub v: u64,
    pub t: u64,
    pub n: u64,
}

/// What one line of mesh text declares.
#[derive(Clone, Copy, Debug, PartialEq, Eq, Structural)]
pub enum ObjLine {
    Position(Vec3),
    TexCoord(Vec3),
    Normal(Vec3),
    Face(FaceIndex, FaceIndex, FaceIndex),
    Skip,
}

/// Why mesh text was refused.
#[derive(Clone, Copy, Debug, PartialEq, Eq, Structural)]
pub enum ObjError {
    /// A face names an index of 0, or one past what was declared before it.
    IndexOutOfRange,
}

/// Three numbers at `p`, each after the first preceded by at least one space.
pub open spec fn three_numbers(s: Seq<u8>, p: int) -> Option<Vec3> {
    match number_at(s, p) {
        None => None,
        Some((x, e1)) => {
            let at2 = skip_spaces(s, e1);
            if at2 == e1 {
                None
            } else {
                match number_at(s, at2) {
                    None => None,
                    Some((y, e2)) => {
                        let at3 = skip_spaces(s, e2);
                        if at3 == e2 {
                            None
                        } else {
                            match number_at(s, at3) {
                                None => None,
                                Some((z, _e3)) => Some(Vec3 { x: x as i64, y: y as i64, z: z as i64 }),
                            }
                        }
                    },
                }
            }
        },
    }
}

/// An index triple `v/t/n` at `p`, and the position after it.
pub open spec fn triple_at(s: Seq<u8>, p: int) -> Option<(FaceIndex, int)> {
    match index_at(s, p) {
        None => None,
        Some((v, e1)) => if !(e1 < s.len() && s[e1] == 47) {
            None
        } else {
            match index_at(s, e1 + 1) {
                None => None,
                Some((t, e2)) => if !(e2 < s.len() && s[e2] == 47) {
                    None
                } else {
                    match index_at(s, e2 + 1) {
                        None => None,
                        Some((n, e3)) => Some((FaceIndex { v: v as u64, t: t as u64, n: n as u64 }, e3)),
                    }
                },
            }
        },
    }
}

/// Three index triples at `p`, separated by spaces.
pub open spec fn three_triples(s: Seq<u8>, p: int) -> Option<(FaceIndex, FaceIndex, FaceIndex)> {
    match triple_at(s, p) {
        None => None,
        Some((a, e1)) => {
            let at2 = skip_spaces(s, e1);
            if at2 == e1 {
                None
            } else {
                match triple_at(s, at2) {
                    None => None,
                    Some((b, e2)) => {
                        let at3 = skip_spaces(s, e2);
                        if at3 == e2 {
                            None
                        } else {
                            match triple_at(s, at3) {
                                None => None,
                                Some((c, _e3)) => Some((a, b, c)),
                            }
                        }
                    },
                }
            }
        },
    }
}

pub open spec fn starts_with2(s: Seq<u8>, a: u8, b: u8) -> bool {
    s.len() >= 2 && s[0] == a && s[1] == b
}

pub open spec fn starts_with3(s: Seq<u8>, a: u8, b: u8, c: u8) -> bool {
    s.len() >= 3 && s[0] == a && s[1] == b && s[2] == c
}

/// What a line declares: `v`, `vt` and `vn` take three numbers, `f` three
/// index triples; anything else, or a line that does not fit, declares nothing.
pub open spec fn line_spec(s: Seq<u8>) -> ObjLine {
    if starts_with2(s, 118, 32) {
        match three_numbers(s, skip_spaces(s, 1)) {
            Some(v) => ObjLine::Position(v),
            None => ObjLine::Skip,
        }
    } else if starts_with3(s, 118, 116, 32) {
        match three_numbers(s, skip_spaces(s, 2)) {
            Some(v) => ObjLine::TexCoord(v),
            None => ObjLine::Skip,
        }
    } else if starts_with3(s, 118, 110, 32) {
        match three_numbers(s, skip_spaces(s, 2)) {
            Some(v) => ObjLine::Normal(v),
            None => ObjLine::Skip,
        }
    } else if starts_with2(s, 102, 32) {
        match three_triples(s, skip_spaces(s, 1)) {
            Some((a, b, c)) => ObjLine::Face(a, b, c),
            None => ObjLine::Skip,
        }
    } else {
        ObjLine::Skip
    }
}

fn read_three_numbers(s: &[u8], p: usize) -> (r: Option<Vec3>)
    requires
        p <= s@.len(),
    ensures
        r == three_numbers(s@, p as int),
{
    let (x, e1) = match read_number(s, p) {
        None => return None,
        Some(q) => q,
    };
    let at2 = skip_spaces_exec(s, e1);
    if at2 == e1 {
        return None;
    }
    let (y, e2) = match read_number(s, at2) {
        None => return None,
        Some(q) => q,
    };
    let at3 = skip_spaces_exec(s, e2);
    if at3 == e2 {
        return None;
    }
    let (z, _e3) = match read_number(s, at3) {
        None => return None,
        Some(q) => q,
    };
    Some(Vec3 { x, y, z })
}

fn read_triple(s: &[u8], p: usize) -> (r: Option<(FaceIndex, usize)>)
    requires
        p <= s@.len(),
    ensures
        r is None <==> triple_at(s@, p as int) is None,
        r matches Some((f, e)) ==> triple_at(s@, p as int) == Some((f, e as int)) && e <= s@.len(),
{
    let (v, e1) = match read_index(s, p) {
        None => return None,
        Some(q) => q,
    };
    if !(e1 < s.len() && s[e1] == 47) {
        return None;
    }
    let (t, e2) = match read_index(s, e1 + 1) {
        None => return None,
        Some(q) => q,
    };
    if !(e2 < s.len() && s[e2] == 47) {
        return None;
    }
    let (n, e3) = match read_index(s, e2 + 1) {
        None => return None,
        Some(q) => q,
    };
    Some((FaceIndex { v, t, n }, e3))
}

fn read_three_triples(s: &[u8], p: usize) -> (r: Option<(FaceIndex, FaceIndex, FaceIndex)>)
    requires
        p <= s@.len(),
    ensures
        r == three_triples(s@, p as int),
{
    let (a, e1) = match read_triple(s, p) {
        None => return None,
        Some(q) => q,
    };
    let at2 = skip_spaces_exec(s, e1);
    if at2 == e1 {
        return None;
    }
    let (b, e2) = match read_triple(s, at2) {
        None => return None,
        Some(q) => q,
    };
    let at3 = skip_spaces_exec(s, e2);
    if at3 == e2 {
        return None;
    }
    let (c, _e3) = match read_triple(s, at3) {
        None => return None,
        Some(q) => q,
    };
    Some((a, b, c))
}

/// Reads what one line of mesh text declares.
pub fn parse_line(s: &[u8]) -> (r: ObjLine)
    ensures
        r == line_spec(s@),
{
    let n = s.len();
    if n >= 2 && s[0] == 118 && s[1] == 32 {
        match read_three_numbers(s, skip_spaces_exec(s, 1)) {
            Some(v) => ObjLine::Position(v),
            None => ObjLine::Skip,
        }
    } else if n >= 3 && s[0] == 118 && s[1] == 116 && s[2] == 32 {
        match read_three_numbers(s, skip_spaces_exec(s, 2)) {
            Some(v) => ObjLine::TexCoord(v),
            None => ObjLine::Skip,
        }
    } else if n >= 3 && s[0] == 118 && s[1] == 110 && s[2] == 32 {
        match read_three_numbers(s, skip_spaces_exec(s, 2)) {
            Some(v) => ObjLine::Normal(v),
            None => ObjLine::Skip,
        }
    } else if n >= 2 && s[0] == 102 && s[1] == 32 {
        match read_three_triples(s, skip_spaces_exec(s, 1)) {
            Some((a, b, c)) => ObjLine::Face(a, b, c),
            None => ObjLine::Skip,
        }
    } else {
        ObjLine::Skip
    }
}

/// The tables declared so far (positions, texture coordinates, normals)
/// and the faces read so far.
pub type MeshTables = (Seq<Vec3>, Seq<Vec3>, Seq<Vec3>, Seq<ObjFace>);

pub open spec fn empty_tables() -> MeshTables {
    (Seq::empty(), Seq::empty(), Seq::empty(), Seq::empty())
}

/// A 1-based index that names an entry of a table of `len` entries.
pub open spec fn index_ok(i: u64, len: nat) -> bool {
    1 <= i <= len
}

pub open spec fn face_indices_ok(t: MeshTables, a: FaceIndex, b: FaceIndex, c: FaceIndex) -> bool {
    &&& index_ok(a.v, t.0.len()) && index_ok(b.v, t.0.len()) && index_ok(c.v, t.0.len())
    &&& index_ok(a.t, t.1.len()) && index_ok(b.t, t.1.len()) && index_ok(c.t, t.1.len())
    &&& index_ok(a.n, t.2.len()) && index_ok(b.n, t.2.len()) && index_ok(c.n, t.2.len())
}

/// The face that three index triples name in the tables.
pub open spec fn resolved_face(t: MeshTables, a: FaceIndex, b: FaceIndex, c: FaceIndex) -> ObjFace {
    ObjFace {
        vertices: [t.0[a.v - 1], t.0[b.v - 1], t.0[c.v - 1]],
        texture_vertices: [t.1[a.t - 1], t.1[b.t - 1], t.1[c.t - 1]],
        normals: [t.2[a.n - 1], t.2[b.n - 1], t.2[c.n - 1]],
    }
}

/// The tables after one more line.
pub open spec fn apply_line(t: MeshTables, line: Seq<u8>) -> Result<MeshTables, ObjError> {
    match line_spec(line) {
        ObjLine::Position(v) => Ok((t.0.push(v), t.1, t.2, t.3)),
        ObjLine::TexCoord(v) => Ok((t.0, t.1.push(v), t.2, t.3)),
        ObjLine::Normal(v) => Ok((t.0, t.1, t.2.push(v), t.3)),
        ObjLine::Face(a, b, c) => if face_indices_ok(t, a, b, c) {
            Ok((t.0, t.1, t.2, t.3.push(resolved_face(t, a, b, c))))
        } else {
            Err(ObjError::IndexOutOfRange)
        },
        ObjLine::Skip => Ok(t),
    }
}

/// The tables after every line of `text` that a newline ends, and the
/// unfinished line that follows them.
pub open spec fn scan(text: Seq<u8>) -> Result<(MeshTables, Seq<u8>), ObjError>
    decreases text.len(),
{
    if text.len() == 0 {
        Ok((empty_tables(), Seq::empty()))
    } else {
        match scan(text.drop_last()) {
            Err(e) => Err(e),
            Ok((t, cur)) => if text.last() == 10 {
                match apply_line(t, cur) {
                    Ok(t2) => Ok((t2, Seq::empty())),
                    Err(e) => Err(e),
                }
            } else {
                Ok((t, cur.push(text.last())))
            },
        }
    }
}

/// The faces of mesh text, in order, or the error of its first bad face.
pub open spec fn parse_mesh(text: Seq<u8>) -> Result<Seq<ObjFace>, ObjError> {
    match scan(text) {
        Err(e) => Err(e),
        Ok((t, cur)) => match apply_line(t, cur) {
            Ok(t2) => Ok(t2.3),
            Err(e) => Err(e),
        },
    }
}

proof fn lemma_scan_error_stays(text: Seq<u8>, i: int)
    requires
        0 <= i <= text.len(),
        scan(text.subrange(0, i)) is Err,
    ensures
        parse_mesh(text) == Err::<Seq<ObjFace>, ObjError>(scan(text.subrange(0, i))->Err_0),
    decreases text.len() - i,
{
    if i < text.len() {
        assert(text.subrange(0, i + 1).drop_last() == text.subrange(0, i));
        lemma_scan_error_stays(text, i + 1);
    } else {
        assert(text.subrange(0, i) == text);
    }
}

fn lookup(table: &Vec<Vec3>, i: u64) -> (r: Vec3)
    requires
        index_ok(i, table@.len()),
    ensures
        r == table@[i - 1],
{
    let n: usize = table.len();
    assert(i - 1 < n);
    let k: usize = (i - 1) as usize;
    table[k]
}

fn apply_line_exec(
    pos: &mut Vec<Vec3>,
    tex: &mut Vec<Vec3>,
    nor: &mut Vec<Vec3>,
    faces: &mut Vec<ObjFace>,
    line: &[u8],
) -> (r: Result<(), ObjError>)
    ensures
        match apply_line((old(pos)@, old(tex)@, old(nor)@, old(faces)@), line@) {
            Ok(t) => r is Ok && (final(pos)@, final(tex)@, final(nor)@, final(faces)@) == t,
            Err(e) => r == Err::<(), ObjError>(e),
        },
{
    match parse_line(line) {
        ObjLine::Position(v) => {
            pos.push(v);
        },
        ObjLine::TexCoord(v) => {
            tex.push(v);
        },
        ObjLine::Normal(v) => {
            nor.push(v);
        },
        ObjLine::Face(a, b, c) => {
            let np = pos.len() as u64;
            let nt = tex.len() as u64;
            let nn = nor.len() as u64;
            if !(1 <= a.v && a.v <= np && 1 <= b.v && b.v <= np && 1 <= c.v && c.v <= np
                && 1 <= a.t && a.t <= nt && 1 <= b.t && b.t <= nt && 1 <= c.t && c.t <= nt
                && 1 <= a.n && a.n <= nn && 1 <= b.n && b.n <= nn && 1 <= c.n && c.n <= nn) {
                return Err(ObjError::IndexOutOfRange);
            }
            let face = ObjFace {
                vertices: [lookup(pos, a.v), lookup(pos, b.v), lookup(pos, c.v)],
                texture_vertices: [lookup(tex, a.t), lookup(tex, b.t), lookup(tex, c.t)],
                normals: [lookup(nor, a.n), lookup(nor, b.n), lookup(nor, c.n)],
            };
            faces.push(face);
        },
        ObjLine::Skip => {},
    }
    Ok(())
}

/// Parses mesh text: the faces in file order, each resolved against the
/// positions, texture coordinates and normals declared before it. Lines that
/// declare nothing or do not fit the grammar are passed over; a face whose
/// index is 0 or beyond its table is an error.
pub fn parse_obj(text: &[u8]) -> (r: Result<Vec<ObjFace>, ObjError>)
    ensures
        match parse_mesh(text@) {
            Ok(faces) => r matches Ok(v) && v@ == faces,
            Err(e) => r == Err::<Vec<ObjFace>, ObjError>(e),
        },
{
    let mut pos: Vec<Vec3> = Vec::new();
    let mut tex: Vec<Vec3> = Vec::new();
    let mut nor: Vec<Vec3> = Vec::new();
    let mut faces: Vec<ObjFace> = Vec::new();
    let mut cur: Vec<u8> = Vec::new();
    let mut i: usize = 0;
    assert(text@.subrange(0, 0).len() == 0);
    while i < text.len()
        invariant
            0 <= i <= text@.len(),
            scan(text@.subrange(0, i as int)) == Ok::<(MeshTables, Seq<u8>), ObjError>(
                ((pos@, tex@, nor@, faces@), cur@),
            ),
        decreases text@.len() - i,
    {
        let b = text[i];
        assert(text@.subrange(0, i + 1).drop_last() == text@.subrange(0, i as int));
        if b == 10 {
            match apply_line_exec(&mut pos, &mut tex, &mut nor, &mut faces, cur.as_slice()) {
                Ok(()) => {},
                Err(e) => {
                    proof {
                        lemma_scan_error_stays(text@, i + 1);
                    }
                    return Err(e);
                },
            }
            cur = Vec::new();
        } else {
            cur.push(b);
        }
        i = i + 1;
    }
    assert(text@.subrange(0, i as int) == text@);
    match apply_line_exec(&mut pos, &mut tex, &mut nor, &mut faces, cur.as_slice()) {
        Ok(()) => Ok(faces),
        Err(e) => Err(e),
    }
}

proof fn lemma_scan_open_line(body: Seq<u8>, line: Seq<u8>, k: int)
    requires
        0 <= k <= line.len(),
        scan(body) matches Ok((_t, cur)) && cur.len() == 0,
        forall|j: int| 0 <= j < line.len() ==> line[j] != 10,
    ensures
        scan(body + line.subrange(0, k)) == Ok::<(MeshTables, Seq<u8>), ObjError>(
            (scan(body)->Ok_0.0, line.subrange(0, k)),
        ),
    decreases k,
{
    if k == 0 {
        assert(body + line.subrange(0, 0) == body);
        assert(scan(body)->Ok_0.1 == line.subrange(0, 0));
    } else {
        lemma_scan_open_line(body, line, k - 1);
        assert((body + line.subrange(0, k)).drop_last() == body + line.subrange(0, k - 1));
        assert(line.subrange(0, k - 1).push(line[k - 1]) == line.subrange(0, k));
        assert((body + line.subrange(0, k)).last() == line[k - 1]);
    }
}

/// A face line resolves each slot against what was declared before it: where
/// the text before the line declares the tables `t` and every index of the
/// line names an entry, the parsed face at slot `s` holds the entries at
/// `index - 1` of the position, texture-coordinate and normal tables.
pub proof fn lemma_face_resolves_declared(body: Seq<u8>, line: Seq<u8>, s: int)
    requires
        0 <= s < 3,
        scan(body) matches Ok((_t, cur)) && cur.len() == 0,
        forall|j: int| 0 <= j < line.len() ==> line[j] != 10,
        line_spec(line) matches ObjLine::Face(a, b, c) && face_indices_ok(scan(body)->Ok_0.0, a, b, c),
    ensures
        ({
            let t = scan(body)->Ok_0.0;
            let (a, b, c) = (line_spec(line)->Face_0, line_spec(line)->Face_1, line_spec(line)->Face_2);
            let ix = if s == 0 { a } else if s == 1 { b } else { c };
            parse_mesh(body + line) matches Ok(faces) && faces.len() == t.3.len() + 1 && faces.drop_last()
                == t.3 && faces.last().vertices[s] == t.0[ix.v - 1]
                && faces.last().texture_vertices[s] == t.1[ix.t - 1]
                && faces.last().normals[s] == t.2[ix.n - 1]
        }),
{
    lemma_scan_open_line(body, line, line.len() as int);
    assert(line.subrange(0, line.len() as int) == line);
    let t = scan(body)->Ok_0.0;
    let (a, b, c) = (line_spec(line)->Face_0, line_spec(line)->Face_1, line_spec(line)->Face_2);
    assert(t.3.push(resolved_face(t, a, b, c)).drop_last() == t.3);
}

proof fn lemma_earlier_error_stays(body: Seq<u8>, line: Seq<u8>, rest: Seq<u8>)
    requires
        scan(body) is Err,
    ensures
        parse_mesh(body + line) == Err::<Seq<ObjFace>, ObjError>(ObjError::IndexOutOfRange),
        parse_mesh(body + line.push(10) + rest) == Err::<Seq<ObjFace>, ObjError>(
            ObjError::IndexOutOfRange,
        ),
{
    let text = body + line.push(10) + rest;
    assert(text.subrange(0, body.len() as int) == body);
    lemma_scan_error_stays(text, body.len() as int);
    assert((body + line).subrange(0, body.len() as int) == body);
    lemma_scan_error_stays(body + line, body.len() as int);
}

#[verifier::rlimit(40)]
proof fn lemma_bad_face_fails(body: Seq<u8>, line: Seq<u8>, rest: Seq<u8>)
    requires
        scan(body) matches Ok((_t, cur)) && cur.len() == 0,
        forall|j: int| 0 <= j < line.len() ==> line[j] != 10,
        line_spec(line) matches ObjLine::Face(a, b, c) && !face_indices_ok(scan(body)->Ok_0.0, a, b, c),
    ensures
        parse_mesh(body + line) == Err::<Seq<ObjFace>, ObjError>(ObjError::IndexOutOfRange),
        parse_mesh(body + line.push(10) + rest) == Err::<Seq<ObjFace>, ObjError>(
            ObjError::IndexOutOfRange,
        ),
{
    lemma_scan_open_line(body, line, line.len() as int);
    assert(line.subrange(0, line.len() as int) == line);
    let text = body + line.push(10) + rest;
    let n = body.len() + line.len() + 1;
    assert(text.subrange(0, n - 1) == body + line);
    assert(text.subrange(0, n as int).drop_last() == body + line);
    lemma_scan_error_stays(text, n as int);
}

/// A face that names index 0, or an index past what was declared before it,
/// makes the whole parse fail with `IndexOutOfRange`, whatever follows it;
/// nothing is clamped or wrapped. (`body` is the whole lines before it.)
pub proof fn lemma_face_out_of_range_rejected(body: Seq<u8>, line: Seq<u8>, rest: Seq<u8>)
    requires
        body.len() == 0 || body.last() == 10,
        forall|j: int| 0 <= j < line.len() ==> line[j] != 10,
        scan(body) is Err || (line_spec(line) matches ObjLine::Face(a, b, c)
            && !face_indices_ok(scan(body)->Ok_0.0, a, b, c)),
    ensures
        parse_mesh(body + line) == Err::<Seq<ObjFace>, ObjError>(ObjError::IndexOutOfRange),
        parse_mesh(body + line.push(10) + rest) == Err::<Seq<ObjFace>, ObjError>(
            ObjError::IndexOutOfRange,
        ),
{
    if scan(body) is Err {
        lemma_earlier_error_stays(body, line, rest);
    } else {
        assert(scan(body)->Ok_0.1.len() == 0);
        lemma_bad_face_fails(body, line, rest);
    }
}

/// Faces once read stay: parsing more text keeps every face read so far,
/// in place.
pub proof fn lemma_faces_kept(text: Seq<u8>, more: Seq<u8>)
    requires
        scan(text) is Ok,
        scan(text + more) is Ok,
    ensures
        scan(text)->Ok_0.0.3.len() <= scan(text + more)->Ok_0.0.3.len(),
        scan(text + more)->Ok_0.0.3.subrange(0, scan(text)->Ok_0.0.3.len() as int)
            == scan(text)->Ok_0.0.3,
    decreases more.len(),
{
    if more.len() == 0 {
        assert(text + more == text);
    } else {
        let shorter = more.drop_last();
        assert((text + more).drop_last() == text + shorter);
        if scan(text + shorter) is Err {
            assert(scan(text + more) is Err);
        }
        lemma_faces_kept(text, shorter);
    }
}

/// A face line resolves each slot against what was declared before it,
/// whatever text follows: where the parse succeeds, the face of that line
/// stands at the index of the faces read before it, and slot `s` holds the
/// entries at `index - 1` of the position, texture-coordinate and normal
/// tables declared before the line.
pub proof fn lemma_face_resolves_anywhere(body: Seq<u8>, line: Seq<u8>, rest: Seq<u8>, s: int)
    requires
        0 <= s < 3,
        body.len() == 0 || body.last() == 10,
        scan(body) is Ok,
        forall|j: int| 0 <= j < line.len() ==> line[j] != 10,
        line_spec(line) is Face,
        parse_mesh(body + line.push(10) + rest) is Ok,
    ensures
        ({
            let t = scan(body)->Ok_0.0;
            let (a, b, c) = (line_spec(line)->Face_0, line_spec(line)->Face_1, line_spec(line)->Face_2);
            let ix = if s == 0 { a } else if s == 1 { b } else { c };
            let faces = parse_mesh(body + line.push(10) + rest)->Ok_0;
            &&& face_indices_ok(t, a, b, c)
            &&& faces.len() > t.3.len()
            &&& faces[t.3.len() as int].vertices[s] == t.0[ix.v - 1]
            &&& faces[t.3.len() as int].texture_vertices[s] == t.1[ix.t - 1]
            &&& faces[t.3.len() as int].normals[s] == t.2[ix.n - 1]
        }),
{
    let t = scan(body)->Ok_0.0;
    let (a, b, c) = (line_spec(line)->Face_0, line_spec(line)->Face_1, line_spec(line)->Face_2);
    if !face_indices_ok(t, a, b, c) {
        lemma_face_out_of_range_rejected(body, line, rest);
    }
    assert(scan(body)->Ok_0.1.len() == 0);
    lemma_scan_open_line(body, line, line.len() as int);
    assert(line.subrange(0, line.len() as int) == line);
    let head = body + line.push(10);
    assert(head.drop_last() == body + line);
    let text = head + rest;
    // the head parses to the tables with the new face
    let th = scan(head)->Ok_0.0;
    assert(th.3 == t.3.push(resolved_face(t, a, b, c)));
    // the final faces extend the head's faces
    let fin = scan(text);
    if fin is Err {
        assert(parse_mesh(text) is Err);
    }
    let last = fin->Ok_0;
    let with_last = body + line.push(10) + rest;
    assert(with_last == text);
    lemma_faces_kept(head, rest);
    let t2 = apply_line(last.0, last.1)->Ok_0;
    assert(t2.3.subrange(0, last.0.3.len() as int) == last.0.3) by {
        assert(last.0.3.len() <= t2.3.len());
    }
    assert(t2.3[t.3.len() as int] == last.0.3[t.3.len() as int]);
    assert(last.0.3[t.3.len() as int] == th.3[t.3.len() as int]);
}

} // verus!
