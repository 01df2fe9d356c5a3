//! Unix paths as bytes: their last component, its stem and extension, what holds it, and joining.

use vstd::prelude::*;

verus! {

/// The byte between two components, `/`.
pub const SEP: u8 = 47;

/// The byte before an extension, `.`.
pub const DOT: u8 = 46;

// ---------------------------------------------------------------------------------------------
// Components
// ---------------------------------------------------------------------------------------------

/// A path that begins at the root.
pub open spec fn absolute(p: Seq<u8>) -> bool {
    p.len() > 0 && p[0] == SEP
}

/// Where the components of `p` that can be taken off begin: behind the root, or behind the `.`
/// that a relative path begins with.
pub open spec fn body_start(p: Seq<u8>) -> int {
    if p.len() > 0 && p[0] == SEP {
        1
    } else if p.len() > 0 && p[0] == DOT && (p.len() == 1 || p[1] == SEP) {
        1
    } else {
        0
    }
}

/// Where the last component of `p`, read from `start` to `end`, begins.
pub open spec fn component_start(p: Seq<u8>, start: int, end: int) -> int
    decreases end,
{
    if end <= start || end <= 0 {
        start
    } else if p[end - 1] == SEP {
        end
    } else {
        component_start(p, start, end - 1)
    }
}

/// A component that names nothing: what stands between two separators in a row, or a `.`.
pub open spec fn names_nothing(component: Seq<u8>) -> bool {
    component.len() == 0 || component == seq![DOT]
}

/// Where what stands before the component that begins at `c` ends.
pub open spec fn end_before(start: int, c: int) -> int {
    if c > start {
        c - 1
    } else {
        start
    }
}

/// Where the last component of `p` that names something ends, as far as `end`; `start` where
/// there is none.
pub open spec fn named_end(p: Seq<u8>, start: int, end: int) -> int
    decreases end,
{
    if start < 0 || end <= start {
        start
    } else {
        let c = component_start(p, start, end);
        if names_nothing(p.subrange(c, end)) && end_before(start, c) < end {
            named_end(p, start, end_before(start, c))
        } else {
            end
        }
    }
}

/// Where the last component of `p` that names something ends.
pub open spec fn name_end(p: Seq<u8>) -> int {
    named_end(p, body_start(p), p.len() as int)
}

/// Where the last component of `p` that names something begins.
pub open spec fn name_start(p: Seq<u8>) -> int {
    component_start(p, body_start(p), name_end(p))
}

/// `p` without the separators and the `.` components at its end.
pub open spec fn tidy(p: Seq<u8>) -> Seq<u8> {
    p.take(name_end(p))
}

/// The last component of `p`, where it names a file: it does not where there is none, nor where
/// it is `..`.
pub open spec fn file_name(p: Seq<u8>) -> Option<Seq<u8>> {
    let name = p.subrange(name_start(p), name_end(p));
    if name_end(p) <= body_start(p) || name == seq![DOT, DOT] {
        None
    } else {
        Some(name)
    }
}

/// `p` without its last component. The root and the empty path have none.
pub open spec fn parent(p: Seq<u8>) -> Option<Seq<u8>> {
    let start = body_start(p);
    if name_end(p) > start {
        Some(p.take(named_end(p, start, end_before(start, name_start(p)))))
    } else if p.len() > 0 && p[0] == DOT {
        Some(Seq::empty())
    } else {
        None
    }
}

/// Where the last dot of `name` stands, or -1.
pub open spec fn last_dot(name: Seq<u8>) -> int
    decreases name.len(),
{
    if name.len() == 0 {
        -1
    } else if name.last() == DOT {
        name.len() - 1
    } else {
        last_dot(name.drop_last())
    }
}

/// A file name without its extension. A dot at the very beginning begins no extension.
pub open spec fn stem_of(name: Seq<u8>) -> Seq<u8> {
    if last_dot(name) > 0 {
        name.take(last_dot(name))
    } else {
        name
    }
}

/// The extension of a file name, without its dot.
pub open spec fn extension_of(name: Seq<u8>) -> Option<Seq<u8>> {
    if last_dot(name) > 0 {
        Some(name.skip(last_dot(name) + 1))
    } else {
        None
    }
}

/// The stem of the file name of `p`.
pub open spec fn file_stem(p: Seq<u8>) -> Option<Seq<u8>> {
    match file_name(p) {
        Some(name) => Some(stem_of(name)),
        None => None,
    }
}

/// The extension of the file name of `p`.
pub open spec fn extension(p: Seq<u8>) -> Option<Seq<u8>> {
    match file_name(p) {
        Some(name) => extension_of(name),
        None => None,
    }
}

/// `p` with the extension of its file name, if any, replaced by `ext`. A path without a file name
/// stays as it is.
pub open spec fn with_extension(p: Seq<u8>, ext: Seq<u8>) -> Seq<u8> {
    match file_stem(p) {
        Some(stem) => {
            let bare = p.take(name_start(p) + stem.len());
            if ext.len() == 0 {
                bare
            } else {
                bare.push(DOT) + ext
            }
        },
        None => p,
    }
}

/// What can be an extension: it holds neither a separator nor a dot, and is not empty.
pub open spec fn plain_extension(ext: Seq<u8>) -> bool {
    ext.len() > 0 && !ext.contains(SEP) && !ext.contains(DOT)
}

/// `name` inside `dir`. A name that begins at the root stands for itself.
pub open spec fn join(dir: Seq<u8>, name: Seq<u8>) -> Seq<u8> {
    if name.len() > 0 && name[0] == SEP {
        name
    } else if dir.len() > 0 && dir.last() != SEP {
        dir.push(SEP) + name
    } else {
        dir + name
    }
}

// ---------------------------------------------------------------------------------------------
// Reading a path
// ---------------------------------------------------------------------------------------------

proof fn lemma_component_start(p: Seq<u8>, start: int, end: int)
    requires
        0 <= start <= end <= p.len(),
    ensures
        start <= component_start(p, start, end) <= end,
        forall|i: int| component_start(p, start, end) <= i < end ==> p[i] != SEP,
        component_start(p, start, end) > start ==> p[component_start(p, start, end) - 1] == SEP,
    decreases end,
{
    if end > start && p[end - 1] != SEP {
        lemma_component_start(p, start, end - 1);
    }
}

proof fn lemma_named_end(p: Seq<u8>, start: int, end: int)
    requires
        0 <= start <= end <= p.len(),
    ensures
        start <= named_end(p, start, end) <= end,
        named_end(p, start, end) > start ==> !names_nothing(
            p.subrange(
                component_start(p, start, named_end(p, start, end)),
                named_end(p, start, end),
            ),
        ),
    decreases end,
{
    if end > start {
        lemma_component_start(p, start, end);
        let c = component_start(p, start, end);
        let e = end_before(start, c);
        if e < end {
            if names_nothing(p.subrange(c, end)) {
                lemma_named_end(p, start, e);
            }
        }
    }
}

fn find_body_start(p: &[u8]) -> (r: usize)
    ensures
        r == body_start(p@),
        r <= p.len(),
{
    if p.len() > 0 && p[0] == SEP {
        1
    } else if p.len() > 0 && p[0] == DOT && (p.len() == 1 || p[1] == SEP) {
        1
    } else {
        0
    }
}

fn find_component_start(p: &[u8], start: usize, end: usize) -> (r: usize)
    requires
        start <= end <= p.len(),
    ensures
        r == component_start(p@, start as int, end as int),
        start <= r <= end,
{
    let mut i: usize = end;
    while i > start && p[i - 1] != SEP
        invariant
            start <= i <= end <= p.len(),
            component_start(p@, start as int, end as int) == component_start(
                p@,
                start as int,
                i as int,
            ),
        decreases i,
    {
        i = i - 1;
    }
    i
}

fn find_named_end(p: &[u8], start: usize, end: usize) -> (r: usize)
    requires
        start <= end <= p.len(),
    ensures
        r == named_end(p@, start as int, end as int),
        start <= r <= end,
{
    let mut e: usize = end;
    while e > start
        invariant
            start <= e <= end <= p.len(),
            named_end(p@, start as int, end as int) == named_end(p@, start as int, e as int),
        decreases e,
    {
        let c = find_component_start(p, start, e);
        proof {
            let part = p@.subrange(c as int, e as int);
            assert(part == seq![DOT] <==> part.len() == 1 && part[0] == DOT) by {
                if part.len() == 1 && part[0] == DOT {
                    assert(part =~= seq![DOT]);
                }
            }
        }
        if c == e || (c + 1 == e && p[c] == DOT) {
            e = if c > start {
                c - 1
            } else {
                start
            };
        } else {
            return e;
        }
    }
    e
}

/// A copy of the bytes from `a` up to but not including `b`.
fn copy_bytes(p: &[u8], a: usize, b: usize) -> (r: Vec<u8>)
    requires
        a <= b <= p.len(),
    ensures
        r@ == p@.subrange(a as int, b as int),
{
    let mut r: Vec<u8> = Vec::new();
    let mut i: usize = a;
    while i < b
        invariant
            a <= i <= b <= p.len(),
            r@ == p@.subrange(a as int, i as int),
        decreases b - i,
    {
        r.push(p[i]);
        i = i + 1;
        assert(p@.subrange(a as int, i as int) =~= p@.subrange(a as int, i - 1).push(p@[i - 1]));
    }
    r
}

/// Appends `more` to `bytes`.
pub fn push_bytes(bytes: &mut Vec<u8>, more: &[u8])
    ensures
        final(bytes)@ == old(bytes)@ + more@,
{
    let mut i: usize = 0;
    let ghost start = bytes@;
    while i < more.len()
        invariant
            i <= more.len(),
            bytes@ == start + more@.take(i as int),
        decreases more.len() - i,
    {
        bytes.push(more[i]);
        i = i + 1;
        assert(more@.take(i as int) =~= more@.take(i - 1).push(more@[i - 1]));
    }
    assert(more@.take(i as int) =~= more@);
}

/// Whether two byte strings are equal.
pub fn same_bytes(a: &[u8], b: &[u8]) -> (r: bool)
    ensures
        r == (a@ == b@),
{
    if a.len() != b.len() {
        return false;
    }
    let mut i: usize = 0;
    while i < a.len()
        invariant
            i <= a.len(),
            a.len() == b.len(),
            forall|j: int| 0 <= j < i ==> a[j] == b[j],
        decreases a.len() - i,
    {
        if a[i] != b[i] {
            return false;
        }
        i = i + 1;
    }
    assert(a@ =~= b@);
    true
}

/// A copy of a path.
pub fn copy(p: &[u8]) -> (r: Vec<u8>)
    ensures
        r@ == p@,
{
    let r = copy_bytes(p, 0, p.len());
    assert(p@.subrange(0, p@.len() as int) =~= p@);
    r
}

/// The last component of `p`, where it names a file.
pub fn get_file_name(p: &[u8]) -> (r: Option<Vec<u8>>)
    ensures
        match r {
            Some(name) => file_name(p@) == Some(name@),
            None => file_name(p@) is None,
        },
{
    let start = find_body_start(p);
    let end = find_named_end(p, start, p.len());
    if end <= start {
        return None;
    }
    let c = find_component_start(p, start, end);
    let name = copy_bytes(p, c, end);
    if name.len() == 2 && name[0] == DOT && name[1] == DOT {
        assert(name@ =~= seq![DOT, DOT]);
        return None;
    }
    Some(name)
}

/// `p` without its last component.
pub fn get_parent(p: &[u8]) -> (r: Option<Vec<u8>>)
    ensures
        match r {
            Some(dir) => parent(p@) == Some(dir@),
            None => parent(p@) is None,
        },
{
    let start = find_body_start(p);
    let end = find_named_end(p, start, p.len());
    if end > start {
        let c = find_component_start(p, start, end);
        let before: usize = if c > start {
            c - 1
        } else {
            start
        };
        let e = find_named_end(p, start, before);
        let dir = copy_bytes(p, 0, e);
        assert(dir@ =~= p@.take(e as int));
        Some(dir)
    } else if p.len() > 0 && p[0] == DOT {
        Some(Vec::new())
    } else {
        None
    }
}

/// No dot stands behind the last one.
pub proof fn last_dot_is_last(name: Seq<u8>)
    ensures
        -1 <= last_dot(name) < name.len(),
        last_dot(name) >= 0 ==> name[last_dot(name)] == DOT,
        forall|i: int| last_dot(name) < i < name.len() ==> name[i] != DOT,
    decreases name.len(),
{
    if name.len() > 0 && name.last() != DOT {
        let t = name.drop_last();
        last_dot_is_last(t);
        assert forall|i: int| last_dot(name) < i < name.len() implies name[i] != DOT by {
            if i < t.len() {
                assert(t[i] == name[i]);
            }
        }
    }
}

/// The last dot is the one with no dot behind it.
pub proof fn last_dot_is(name: Seq<u8>, d: int)
    requires
        -1 <= d < name.len(),
        d >= 0 ==> name[d] == DOT,
        forall|i: int| d < i < name.len() ==> name[i] != DOT,
    ensures
        last_dot(name) == d,
{
    last_dot_is_last(name);
    let e = last_dot(name);
    if e > d {
        assert(name[e] != DOT);
    } else if e < d {
        assert(name[d] != DOT);
    }
}

/// How long the stem of a file name is.
fn stem_len(name: &Vec<u8>) -> (r: usize)
    ensures
        r == stem_of(name@).len(),
        r <= name.len(),
        r < name.len() ==> last_dot(name@) == r && r > 0,
        r == name.len() ==> last_dot(name@) <= 0,
{
    let mut i: usize = name.len();
    while i > 0 && name[i - 1] != DOT
        invariant
            i <= name.len(),
            forall|k: int| i <= k < name.len() ==> name@[k] != DOT,
        decreases i,
    {
        i = i - 1;
    }
    proof {
        last_dot_is(name@, i - 1);
    }
    if i > 1 {
        i - 1
    } else {
        name.len()
    }
}

/// The stem of the file name of `p`.
pub fn get_file_stem(p: &[u8]) -> (r: Option<Vec<u8>>)
    ensures
        match r {
            Some(stem) => file_stem(p@) == Some(stem@),
            None => file_stem(p@) is None,
        },
{
    match get_file_name(p) {
        Some(name) => {
            let n = stem_len(&name);
            let stem = copy_bytes(&name, 0, n);
            assert(stem@ =~= stem_of(name@));
            Some(stem)
        },
        None => None,
    }
}

/// The extension of the file name of `p`.
pub fn get_extension(p: &[u8]) -> (r: Option<Vec<u8>>)
    ensures
        match r {
            Some(ext) => extension(p@) == Some(ext@),
            None => extension(p@) is None,
        },
{
    match get_file_name(p) {
        Some(name) => {
            let n = stem_len(&name);
            if n < name.len() {
                let ext = copy_bytes(&name, n + 1, name.len());
                assert(ext@ =~= name@.skip(n + 1));
                Some(ext)
            } else {
                None
            }
        },
        None => None,
    }
}

/// `p` with the extension of its file name, if any, replaced by `ext`.
pub fn set_extension(p: &[u8], ext: &[u8]) -> (r: Vec<u8>)
    ensures
        r@ == with_extension(p@, ext@),
{
    match get_file_name(p) {
        Some(name) => {
            let n = stem_len(&name);
            let start = find_body_start(p);
            let end = find_named_end(p, start, p.len());
            let c = find_component_start(p, start, end);
            let mut r = copy_bytes(p, 0, c + n);
            assert(r@ =~= p@.take(c + n));
            if ext.len() > 0 {
                r.push(DOT);
                push_bytes(&mut r, ext);
            }
            r
        },
        None => copy(p),
    }
}

/// The text that `String::from_utf8_lossy` makes of bytes that are not UTF-8.
pub uninterp spec fn lossy(p: Seq<u8>) -> Seq<char>;

/// The text that stands for a path in a message: the one that its bytes encode. In a path that is
/// not UTF-8, what encodes nothing is replaced.
pub open spec fn shown(p: Seq<u8>) -> Seq<char> {
    if vstd::utf8::valid_utf8(p) {
        vstd::utf8::decode_utf8(p)
    } else {
        lossy(p)
    }
}

/// `String::from_utf8_lossy` turns bytes into text: the text they encode where they are UTF-8,
/// and else a text with replacement characters that depends on the bytes alone. How much each
/// replacement character stands for is left unsaid.
#[verifier::external_body]
pub(crate) fn show(p: &[u8]) -> (r: String)
    ensures
        vstd::utf8::valid_utf8(p@) ==> r@ == vstd::utf8::decode_utf8(p@),
        !vstd::utf8::valid_utf8(p@) ==> r@ == lossy(p@),
{
    String::from_utf8_lossy(p).into_owned()
}

/// The error of `std::str::from_utf8`. Nothing is read from it.
#[verifier::external_type_specification]
#[verifier::external_body]
pub struct ExUtf8Error(std::str::Utf8Error);

/// `std::str::from_utf8` succeeds exactly on valid UTF-8, and the string it then gives has the
/// same bytes.
pub assume_specification[ std::str::from_utf8 ](v: &[u8]) -> (r: Result<&str, std::str::Utf8Error>)
    ensures
        r is Ok <==> vstd::utf8::valid_utf8(v@),
        r matches Ok(s) ==> vstd::utf8::encode_utf8(s@) == v@,
;

/// Whether `bytes` are UTF-8.
pub fn is_utf8(bytes: &[u8]) -> (r: bool)
    ensures
        r == vstd::utf8::valid_utf8(bytes@),
{
    std::str::from_utf8(bytes).is_ok()
}

/// The bytes of a text.
pub open spec fn bytes_of(s: Seq<char>) -> Seq<u8> {
    vstd::utf8::encode_utf8(s)
}

/// `name` inside `dir`.
pub fn join_path(dir: &[u8], name: &[u8]) -> (r: Vec<u8>)
    ensures
        r@ == join(dir@, name@),
{
    if name.len() > 0 && name[0] == SEP {
        return copy(name);
    }
    let mut r = copy(dir);
    if dir.len() > 0 && dir[dir.len() - 1] != SEP {
        r.push(SEP);
    }
    push_bytes(&mut r, name);
    r
}

// ---------------------------------------------------------------------------------------------
// What joining and extensions keep
// ---------------------------------------------------------------------------------------------

/// A name that stands for a file in a directory: one component, neither `.` nor `..`.
pub open spec fn plain_name(name: Seq<u8>) -> bool {
    &&& name.len() > 0
    &&& !name.contains(SEP)
    &&& name != seq![DOT]
    &&& name != seq![DOT, DOT]
}

proof fn lemma_component_start_is(p: Seq<u8>, start: int, end: int, c: int)
    requires
        0 <= start <= c <= end <= p.len(),
        forall|i: int| c <= i < end ==> p[i] != SEP,
        c > start ==> p[c - 1] == SEP,
    ensures
        component_start(p, start, end) == c,
{
    lemma_component_start(p, start, end);
    let d = component_start(p, start, end);
    if d < c {
        assert(p[c - 1] != SEP);
    } else if d > c {
        assert(p[d - 1] != SEP);
    }
}

proof fn lemma_same_beginning(p: Seq<u8>, q: Seq<u8>, start: int, end: int)
    requires
        0 <= start <= end <= p.len(),
        end <= q.len(),
        p.take(end) == q.take(end),
    ensures
        component_start(p, start, end) == component_start(q, start, end),
        named_end(p, start, end) == named_end(q, start, end),
    decreases end,
{
    assert forall|i: int| 0 <= i < end implies p[i] == q[i] by {
        assert(p.take(end)[i] == p[i]);
        assert(q.take(end)[i] == q[i]);
    }
    lemma_component_start(p, start, end);
    lemma_component_start(q, start, end);
    let c = component_start(p, start, end);
    lemma_component_start_is(q, start, end, c);
    if end > start {
        assert(p.subrange(c, end) =~= q.subrange(c, end));
        let e = end_before(start, c);
        if e < end {
            assert(p.take(e) =~= q.take(e));
            lemma_same_beginning(p, q, start, e);
        }
    }
}

proof fn lemma_name(p: Seq<u8>)
    ensures
        0 <= body_start(p) <= name_start(p) <= name_end(p) <= p.len(),
        name_end(p) > body_start(p) ==> name_start(p) < name_end(p),
        forall|i: int| name_start(p) <= i < name_end(p) ==> p[i] != SEP,
        name_start(p) > body_start(p) ==> p[name_start(p) - 1] == SEP,
{
    let start = body_start(p);
    lemma_named_end(p, start, p.len() as int);
    lemma_component_start(p, start, name_end(p));
}

/// A file name is a plain name.
pub proof fn file_name_is_plain(p: Seq<u8>)
    requires
        file_name(p) is Some,
    ensures
        plain_name(file_name(p)->0),
{
    lemma_name(p);
    lemma_named_end(p, body_start(p), p.len() as int);
    let name = file_name(p)->0;
    if name.contains(SEP) {
        let i = choose|i: int| 0 <= i < name.len() && name[i] == SEP;
        assert(p[name_start(p) + i] == SEP);
    }
}

/// A stem is not empty, and holds no separator.
pub proof fn file_stem_is_plain(p: Seq<u8>)
    requires
        file_stem(p) is Some,
    ensures
        (file_stem(p)->0).len() > 0,
        !(file_stem(p)->0).contains(SEP),
{
    file_name_is_plain(p);
    let name = file_name(p)->0;
    let stem = file_stem(p)->0;
    last_dot_is_last(name);
    if stem.contains(SEP) {
        let i = choose|i: int| 0 <= i < stem.len() && stem[i] == SEP;
        assert(name[i] == SEP);
        assert(name.contains(SEP));
    }
}

/// An extension holds neither a separator nor a dot.
pub proof fn extension_is_plain(p: Seq<u8>)
    requires
        extension(p) is Some,
    ensures
        !(extension(p)->0).contains(SEP),
        !(extension(p)->0).contains(DOT),
{
    file_name_is_plain(p);
    let name = file_name(p)->0;
    let ext = extension(p)->0;
    let d = last_dot(name);
    last_dot_is_last(name);
    if ext.contains(SEP) {
        let i = choose|i: int| 0 <= i < ext.len() && ext[i] == SEP;
        assert(name[d + 1 + i] == SEP);
        assert(name.contains(SEP));
    }
    if ext.contains(DOT) {
        let i = choose|i: int| 0 <= i < ext.len() && ext[i] == DOT;
        assert(name[d + 1 + i] == DOT);
    }
}

/// A name with an extension is its stem, a dot and the extension.
pub proof fn last_dot_of_extension(name: Seq<u8>)
    requires
        extension_of(name) is Some,
    ensures
        name == stem_of(name) + seq![DOT] + extension_of(name)->0,
        last_dot(name) == name.len() - (extension_of(name)->0).len() - 1,
{
    last_dot_is_last(name);
    assert(name =~= stem_of(name) + seq![DOT] + extension_of(name)->0);
}

proof fn lemma_tidy_end(p: Seq<u8>, start: int, end: int)
    requires
        0 <= start <= end <= p.len(),
    ensures
        named_end(p, start, named_end(p, start, end)) == named_end(p, start, end),
    decreases end,
{
    lemma_named_end(p, start, end);
    lemma_component_start(p, start, end);
    if end > start {
        let c = component_start(p, start, end);
        let e = end_before(start, c);
        if names_nothing(p.subrange(c, end)) && e < end {
            lemma_tidy_end(p, start, e);
        }
    }
}

/// Where `p` has a body at all, its beginning up to any place in the body has the same one.
proof fn lemma_body_start_of_beginning(p: Seq<u8>, e: int)
    requires
        body_start(p) <= e <= p.len(),
        e > 0 && p[0] == DOT && p.len() > 1 && p[1] != SEP ==> e > 1,
    ensures
        body_start(p.take(e)) == body_start(p),
{
}

/// The directory that holds `p` is tidy.
pub proof fn parent_is_tidy(p: Seq<u8>)
    requires
        parent(p) is Some,
    ensures
        tidy(parent(p)->0) == parent(p)->0,
{
    let start = body_start(p);
    lemma_name(p);
    let d = parent(p)->0;
    if name_end(p) > start {
        let b = end_before(start, name_start(p));
        let e = named_end(p, start, b);
        lemma_named_end(p, start, b);
        lemma_tidy_end(p, start, b);
        if e > 0 && p[0] == DOT && p.len() > 1 && p[1] != SEP && e == 1 {
            lemma_component_start_is(p, 0, 1, 0);
            assert(p.subrange(0, 1) =~= seq![DOT]);
        }
        lemma_body_start_of_beginning(p, e);
        assert(d.take(e) =~= p.take(e));
        lemma_same_beginning(d, p, start, e);
        assert(d.take(e) =~= d);
    } else {
        assert(tidy(d) =~= d);
    }
}

/// What holds `p` is shorter than `p`.
pub proof fn parent_is_shorter(p: Seq<u8>)
    requires
        parent(p) is Some,
    ensures
        (parent(p)->0).len() < p.len(),
{
    lemma_name(p);
    let start = body_start(p);
    if name_end(p) > start {
        lemma_named_end(p, start, end_before(start, name_start(p)));
    }
}

/// A plain name joined to a directory is a file of that name in that directory, below it.
pub proof fn joined_path_is_in_dir(dir: Seq<u8>, name: Seq<u8>)
    requires
        plain_name(name),
    ensures
        file_name(join(dir, name)) == Some(name),
        parent(join(dir, name)) == Some(tidy(dir)),
        dir.is_prefix_of(join(dir, name)),
        join(dir, name).len() > dir.len(),
        tidy(join(dir, name)) == join(dir, name),
{
    let q = join(dir, name);
    assert(name.contains(name[0]));
    let start = body_start(q);
    let c = q.len() - name.len();
    assert forall|i: int| c <= i < q.len() implies q[i] != SEP by {
        assert(q[i] == name[i - c]);
        assert(name.contains(name[i - c]));
    }
    assert(q.subrange(0, dir.len() as int) =~= dir);
    if dir.len() == 0 {
        assert(q =~= name);
        if name.len() == 1 && name[0] == DOT {
            assert(name =~= seq![DOT]);
        }
        if name.len() > 1 {
            assert(name.contains(name[1]));
        }
    }
    assert(start == body_start(dir));
    assert(start <= c);
    lemma_component_start_is(q, start, q.len() as int, c);
    assert(q.subrange(c, q.len() as int) =~= name);
    assert(name_end(q) == q.len());
    assert(tidy(q) =~= q);
    let b = end_before(start, c);
    // What stands before the name is the directory, but for one separator at its end.
    let n = dir.len() as int;
    if c == n + 1 {
        assert(q.take(n) =~= dir.take(n));
        lemma_same_beginning(q, dir, start, n);
    } else if n > start {
        assert(dir.last() == SEP);
        lemma_component_start_is(dir, start, n, n);
        assert(dir.subrange(n, n).len() == 0);
        assert(q.take(n - 1) =~= dir.take(n - 1));
        lemma_same_beginning(q, dir, start, n - 1);
    }
    lemma_name(dir);
    assert(q.take(name_end(dir)) =~= tidy(dir));
}

/// Replacing an extension changes nothing but the file name, of which it keeps the stem. Taking it
/// away can leave a stem that is no name, `.` or `..`.
pub proof fn with_extension_keeps_stem(p: Seq<u8>, ext: Seq<u8>)
    requires
        file_name(p) is Some,
        !ext.contains(SEP),
        ext.len() > 0 || plain_name(file_stem(p)->0),
    ensures
        parent(with_extension(p, ext)) == parent(p),
        file_name(with_extension(p, ext)) == Some(
            if ext.len() == 0 {
                file_stem(p)->0
            } else {
                (file_stem(p)->0).push(DOT) + ext
            },
        ),
{
    lemma_name(p);
    file_name_is_plain(p);
    let name = file_name(p)->0;
    last_dot_is_last(name);
    let stem = stem_of(name);
    let n = stem.len() as int;
    let c = name_start(p);
    let start = body_start(p);
    let w = with_extension(p, ext);
    assert forall|i: int| 0 <= i < c implies w[i] == p[i] by {}
    assert forall|i: int| c <= i < c + n implies w[i] == name[i - c] by {}
    assert(ext.len() > 0 ==> w[c + n] == DOT);
    assert forall|i: int| c + n < i < w.len() implies w[i] == ext[i - (c + n + 1)] by {}
    assert forall|i: int| c <= i < w.len() implies w[i] != SEP by {
        if i < c + n {
            assert(name.contains(name[i - c]));
        } else if i > c + n {
            assert(ext.contains(ext[i - (c + n + 1)]));
        }
    }
    if start == 1 && p[0] == DOT {
        assert(p.len() > 1 && p[1] == SEP);
        assert(c > 1);
    }
    let new_name = w.subrange(c, w.len() as int);
    if ext.len() == 0 {
        assert(new_name =~= stem);
        if new_name.len() == 1 && new_name[0] == DOT {
            assert(new_name =~= seq![DOT]);
        }
    } else {
        assert(new_name =~= stem.push(DOT) + ext);
    }
    assert(body_start(w) == start);
    lemma_component_start_is(w, start, w.len() as int, c);
    assert(name_end(w) == w.len());
    assert(file_name(w) == Some(new_name));
    let b = end_before(start, c);
    assert(w.take(b) =~= p.take(b));
    lemma_same_beginning(w, p, start, b);
    lemma_named_end(p, start, b);
    let e = named_end(p, start, b);
    assert(w.take(e) =~= p.take(e));
}

/// Taking an extension away makes no path longer.
pub proof fn without_extension_is_no_longer(p: Seq<u8>)
    ensures
        with_extension(p, Seq::empty()).len() <= p.len(),
{
    lemma_name(p);
    if file_name(p) is Some {
        last_dot_is_last(file_name(p)->0);
    }
}

/// Replacing an extension by a plain one changes neither the directory nor the stem, and gives the
/// new one.
pub proof fn with_extension_changes_only_that(p: Seq<u8>, ext: Seq<u8>)
    requires
        file_name(p) is Some,
        plain_extension(ext),
    ensures
        extension(with_extension(p, ext)) == Some(ext),
        file_stem(with_extension(p, ext)) == file_stem(p),
        parent(with_extension(p, ext)) == parent(p),
{
    with_extension_keeps_stem(p, ext);
    file_stem_is_plain(p);
    let stem = file_stem(p)->0;
    let n = stem.len() as int;
    let new_name = stem.push(DOT) + ext;
    assert forall|i: int| n < i < new_name.len() implies new_name[i] != DOT by {
        assert(new_name[i] == ext[i - (n + 1)]);
        assert(ext.contains(ext[i - (n + 1)]));
    }
    last_dot_is(new_name, n);
    assert(stem_of(new_name) =~= stem);
    assert(new_name.skip(n + 1) =~= ext);
}

/// Two names that do not begin at the root, joined to one directory, give two paths.
pub proof fn join_is_injective(dir: Seq<u8>, a: Seq<u8>, b: Seq<u8>)
    requires
        a.len() > 0 && a[0] != SEP,
        b.len() > 0 && b[0] != SEP,
        join(dir, a) == join(dir, b),
    ensures
        a == b,
{
    let p = join(dir, a);
    assert(a =~= p.skip(p.len() - a.len()));
    assert(b =~= p.skip(p.len() - b.len()));
}

// ---------------------------------------------------------------------------------------------
// The pieces of a path
// ---------------------------------------------------------------------------------------------

/// What stands between the separators of `p`.
pub open spec fn split(p: Seq<u8>) -> Seq<Seq<u8>>
    decreases p.len(),
{
    if p.len() == 0 {
        seq![p]
    } else {
        let before = split(p.drop_last());
        if p.last() == SEP {
            before.push(Seq::empty())
        } else {
            before.drop_last().push(before.last().push(p.last()))
        }
    }
}

/// The components of `p` that name something.
pub open spec fn pieces(p: Seq<u8>) -> Seq<Seq<u8>> {
    split(p).filter(|component: Seq<u8>| !names_nothing(component))
}

proof fn lemma_split(p: Seq<u8>, c: int)
    requires
        0 <= c <= p.len(),
        forall|i: int| c <= i < p.len() ==> p[i] != SEP,
        c > 0 ==> p[c - 1] == SEP,
    ensures
        c > 0 ==> split(p) == split(p.take(c - 1)).push(p.skip(c)),
        c == 0 ==> split(p) == seq![p],
    decreases p.len(),
{
    if c == p.len() {
        if c > 0 {
            assert(p.drop_last() =~= p.take(c - 1));
            assert(p.skip(c) =~= Seq::empty());
        }
    } else {
        let q = p.drop_last();
        lemma_split(q, c);
        if c > 0 {
            assert(q.take(c - 1) =~= p.take(c - 1));
            assert(q.skip(c).push(p.last()) =~= p.skip(c));
            assert(split(q).drop_last() =~= split(p.take(c - 1)));
        } else {
            assert(q.push(p.last()) =~= p);
            assert(split(q).drop_last().push(p) =~= seq![p]);
        }
    }
}

proof fn lemma_filter_push(s: Seq<Seq<u8>>, x: Seq<u8>)
    ensures
        s.push(x).filter(|component: Seq<u8>| !names_nothing(component)) == (if names_nothing(x) {
            s.filter(|component: Seq<u8>| !names_nothing(component))
        } else {
            s.filter(|component: Seq<u8>| !names_nothing(component)).push(x)
        }),
{
    reveal(Seq::filter);
    assert(s.push(x).drop_last() =~= s);
}

/// What the component that ends at `end` adds to the pieces before it.
proof fn lemma_last_piece(p: Seq<u8>, end: int)
    requires
        body_start(p) < end <= p.len(),
    ensures
        ({
            let start = body_start(p);
            let c = component_start(p, start, end);
            let before = pieces(p.take(end_before(start, c)));
            pieces(p.take(end)) == (if names_nothing(p.subrange(c, end)) {
                before
            } else {
                before.push(p.subrange(c, end))
            })
        }),
{
    let start = body_start(p);
    let c = component_start(p, start, end);
    let q = p.take(end);
    lemma_component_start(p, start, end);
    if start == 1 && p[0] == DOT {
        assert(p[1] == SEP);
        assert(c > 1);
    }
    assert forall|i: int| c <= i < q.len() implies q[i] != SEP by {
        assert(q[i] == p[i]);
    }
    lemma_split(q, c);
    assert(q.skip(c) =~= p.subrange(c, end));
    if c > 0 {
        assert(q.take(c - 1) =~= p.take(c - 1));
        lemma_filter_push(split(p.take(c - 1)), p.subrange(c, end));
        if c == start {
            lemma_no_piece(p);
            assert(p.take(0) =~= Seq::<u8>::empty());
            lemma_filter_push(Seq::empty(), Seq::empty());
            assert(pieces(p.take(0)) =~= pieces(p.take(1)));
        }
    } else {
        assert(q =~= p.subrange(0, end));
        lemma_no_piece(p);
        lemma_filter_push(Seq::empty(), q);
        assert(Seq::<Seq<u8>>::empty().push(q) =~= seq![q]);
    }
}

/// The root, and the `.` that a relative path begins with, are no pieces.
proof fn lemma_no_piece(p: Seq<u8>)
    ensures
        pieces(p.take(body_start(p))).len() == 0,
        pieces(Seq::empty()).len() == 0,
{
    let none = Seq::<Seq<u8>>::empty();
    let q = p.take(body_start(p));
    reveal(Seq::filter);
    let empty = Seq::<u8>::empty();
    lemma_split(empty, 0);
    lemma_filter_push(none, empty);
    assert(none.push(empty) =~= seq![empty]);
    if q.len() == 0 {
        assert(q =~= empty);
    } else if q[0] == SEP {
        lemma_split(q, 1);
        assert(q.take(0) =~= empty);
        assert(q.skip(1) =~= empty);
        lemma_filter_push(split(empty), empty);
    } else {
        lemma_split(q, 0);
        assert(q =~= seq![DOT]);
        lemma_filter_push(none, q);
        assert(none.push(q) =~= seq![q]);
    }
}

proof fn lemma_pieces_up_to_name(p: Seq<u8>, end: int)
    requires
        body_start(p) <= end <= p.len(),
    ensures
        pieces(p.take(end)) == pieces(p.take(named_end(p, body_start(p), end))),
    decreases end,
{
    let start = body_start(p);
    if end > start {
        let c = component_start(p, start, end);
        lemma_component_start(p, start, end);
        lemma_last_piece(p, end);
        if names_nothing(p.subrange(c, end)) && end_before(start, c) < end {
            lemma_pieces_up_to_name(p, end_before(start, c));
        }
    }
}

/// The file name of a path is its last piece, unless that is `..`, and what holds the path has all
/// pieces but the last.
pub proof fn last_piece_is_the_name(p: Seq<u8>)
    ensures
        pieces(p).len() == 0 ==> file_name(p) is None,
        pieces(p).len() > 0 ==> {
            &&& file_name(p) == (if pieces(p).last() == seq![DOT, DOT] {
                None
            } else {
                Some(pieces(p).last())
            })
            &&& parent(p) matches Some(dir) && pieces(dir) == pieces(p).drop_last() && absolute(dir)
                == absolute(p)
        },
        pieces(p).len() == 0 && (p.len() == 0 || absolute(p)) ==> parent(p) is None,
{
    let start = body_start(p);
    let end = name_end(p);
    lemma_name(p);
    lemma_named_end(p, start, p.len() as int);
    lemma_pieces_up_to_name(p, p.len() as int);
    assert(p.take(p.len() as int) =~= p);
    if end > start {
        let c = name_start(p);
        let b = end_before(start, c);
        lemma_last_piece(p, end);
        lemma_pieces_up_to_name(p, b);
        lemma_named_end(p, start, b);
        assert(pieces(p) == pieces(p.take(b)).push(p.subrange(c, end)));
        assert(pieces(p).drop_last() =~= pieces(p.take(b)));
    } else {
        lemma_no_piece(p);
    }
}

/// A dot is text.
pub proof fn dot_is_utf8()
    ensures
        vstd::utf8::valid_utf8(seq![DOT]),
{
    let dots = seq!['.'];
    vstd::utf8::is_ascii_chars_encode_utf8(dots);
    vstd::utf8::encode_utf8_valid_utf8(dots);
    assert(bytes_of(dots) =~= seq![DOT]);
}

/// A text that begins with an ASCII character begins with the byte of that character.
pub proof fn first_byte_of_ascii(s: Seq<char>)
    requires
        s.len() > 0,
        '\0' <= s[0] <= '\u{7f}',
    ensures
        bytes_of(s).len() > 0,
        bytes_of(s)[0] == s[0] as u8,
{
    let first = seq![s[0]];
    vstd::utf8::is_ascii_chars_encode_utf8(first);
    assert(first.drop_first() =~= Seq::<char>::empty());
    let rest = bytes_of(s.drop_first());
    assert(bytes_of(s) == vstd::utf8::encode_scalar(s[0] as u32) + rest);
    assert(bytes_of(first) == vstd::utf8::encode_scalar(s[0] as u32) + bytes_of(
        first.drop_first(),
    ));
    assert(bytes_of(first.drop_first()).len() == 0);
    assert(bytes_of(first)[0] == first[0] as u8);
}

// ---------------------------------------------------------------------------------------------
// What names, extensions and joining come to
// ---------------------------------------------------------------------------------------------

/// What stands behind the last separator is the file name of a path, whatever bytes it holds, and
/// what stands before it, but for separators and `.` components at its end, is what holds the
/// path. A `.` and a `..` are no names.
pub proof fn name_stands_behind_the_last_separator(dir: Seq<u8>, name: Seq<u8>)
    requires
        name.len() > 0,
        forall|i: int| 0 <= i < name.len() ==> name[i] != 47,
        name != seq![46u8],
    ensures
        name != seq![46u8, 46u8] ==> file_name(dir + seq![47u8] + name) == Some(name)
            && file_name(name) == Some(name),
        name == seq![46u8, 46u8] ==> file_name(dir + seq![47u8] + name) is None && file_name(
            name,
        ) is None,
        parent(dir + seq![47u8] + name) == Some(tidy(dir + seq![47u8])),
        parent(name) == Some(Seq::<u8>::empty()),
{
    lemma_name_at_end(dir + seq![47u8], name);
    lemma_name_at_end(Seq::empty(), name);
    assert(Seq::empty() + name =~= name);
    assert(tidy(Seq::empty()) =~= Seq::empty());
}

/// What a path has behind a separator, or has alone, is its file name.
pub proof fn last_name_is_the_file_name(before: Seq<u8>, name: Seq<u8>)
    requires
        before.len() > 0 ==> before[before.len() - 1] == 47,
        name.len() > 0,
        forall|i: int| 0 <= i < name.len() ==> name[i] != 47,
        name != seq![46u8],
        name != seq![46u8, 46u8],
    ensures
        file_name(before + name) == Some(name),
        parent(before + name) == Some(tidy(before)),
{
    lemma_name_at_end(before, name);
}

proof fn lemma_name_at_end(dir: Seq<u8>, name: Seq<u8>)
    requires
        dir.len() > 0 ==> dir.last() == SEP,
        name.len() > 0,
        forall|i: int| 0 <= i < name.len() ==> name[i] != SEP,
        name != seq![DOT],
    ensures
        file_name(dir + name) == (if name == seq![DOT, DOT] {
            None
        } else {
            Some(name)
        }),
        parent(dir + name) == Some(tidy(dir)),
{
    let q = dir + name;
    let c = dir.len() as int;
    let start = body_start(q);
    assert forall|i: int| c <= i < q.len() implies q[i] != SEP by {
        assert(q[i] == name[i - c]);
    }
    if c == 0 && name.len() == 1 && name[0] == DOT {
        assert(name =~= seq![DOT]);
    }
    assert(start == body_start(dir));
    assert(start <= c);
    lemma_component_start_is(q, start, q.len() as int, c);
    assert(q.subrange(c, q.len() as int) =~= name);
    assert(name_end(q) == q.len());
    if c > start {
        lemma_component_start_is(dir, start, c, c);
        assert(dir.subrange(c, c).len() == 0);
        assert(q.take(c - 1) =~= dir.take(c - 1));
        lemma_same_beginning(q, dir, start, c - 1);
    }
    lemma_name(dir);
    assert(q.take(name_end(dir)) =~= tidy(dir));
}

/// Separators and `.` components at the end of a path change nothing, and nothing else is cut
/// off there.
pub proof fn separators_at_the_end_change_nothing(p: Seq<u8>)
    requires
        p.len() > 0,
    ensures
        file_name(p + seq![47u8]) == file_name(p),
        file_name(p + seq![47u8, 46u8]) == file_name(p),
        parent(p + seq![47u8]) == parent(p),
        parent(p + seq![47u8, 46u8]) == parent(p),
        tidy(p + seq![47u8]) == tidy(p),
        tidy(p + seq![47u8, 46u8]) == tidy(p),
        tidy(p).is_prefix_of(p),
        p[p.len() - 1] != 47 && p[p.len() - 1] != 46 ==> tidy(p) == p,
{
    let q = p + seq![47u8];
    let r = p + seq![47u8, 46u8];
    let n = p.len() as int;
    let start = body_start(p);
    assert(body_start(q) == start);
    assert(body_start(r) == start);
    lemma_name(p);
    assert(q.take(n) =~= p);
    assert(r.take(n) =~= p);
    assert(p.take(n) =~= p);
    lemma_component_start_is(q, start, n + 1, n + 1);
    assert(q.subrange(n + 1, n + 1).len() == 0);
    lemma_component_start_is(r, start, n + 2, n + 1);
    assert(r.subrange(n + 1, n + 2) =~= seq![DOT]);
    lemma_same_beginning(q, p, start, n);
    lemma_same_beginning(r, p, start, n);
    let e = name_end(p);
    assert(name_end(q) == e);
    assert(name_end(r) == e);
    assert(q.take(e) =~= p.take(e));
    assert(r.take(e) =~= p.take(e));
    lemma_same_beginning(q, p, start, e);
    lemma_same_beginning(r, p, start, e);
    let c = name_start(p);
    assert(q.subrange(c, e) =~= p.subrange(c, e));
    assert(r.subrange(c, e) =~= p.subrange(c, e));
    let b = end_before(start, c);
    if e > start {
        assert(q.take(b) =~= p.take(b));
        assert(r.take(b) =~= p.take(b));
        lemma_same_beginning(q, p, start, b);
        lemma_same_beginning(r, p, start, b);
        lemma_named_end(p, start, b);
        let d = named_end(p, start, b);
        assert(q.take(d) =~= p.take(d));
        assert(r.take(d) =~= p.take(d));
    }
    assert(p.take(e) =~= p.subrange(0, e));
    if p[n - 1] != 47 && p[n - 1] != 46 {
        if n > start {
            lemma_component_start(p, start, n);
            let last = component_start(p, start, n);
            assert(last < n) by {
                if last == n && last > start {
                    assert(p[last - 1] == SEP);
                }
            }
            let part = p.subrange(last, n);
            assert(part.last() == p[n - 1]);
            assert(!names_nothing(part));
        }
        assert(p.take(n) =~= p);
    }
}

/// The root and the empty path have neither a name nor what holds them.
pub proof fn root_and_nothing_have_no_name()
    ensures
        file_name(seq![47u8]) is None,
        parent(seq![47u8]) is None,
        file_name(Seq::empty()) is None,
        parent(Seq::empty()) is None,
        tidy(seq![47u8]) == seq![47u8],
{
    assert(seq![47u8].take(1) =~= seq![47u8]);
}

/// What stands behind the last dot of a name, if that is not its first byte, is the extension, and
/// what stands before it is the stem. Any other name is its own stem.
pub proof fn extension_stands_behind_the_last_dot(stem: Seq<u8>, ext: Seq<u8>)
    requires
        forall|i: int| 0 <= i < ext.len() ==> ext[i] != 46,
    ensures
        stem.len() > 0 ==> stem_of(stem + seq![46u8] + ext) == stem && extension_of(
            stem + seq![46u8] + ext,
        ) == Some(ext),
        stem_of(ext) == ext && extension_of(ext) is None,
        stem_of(seq![46u8] + ext) == seq![46u8] + ext && extension_of(seq![46u8] + ext) is None,
{
    let name = stem + seq![46u8] + ext;
    let n = stem.len() as int;
    assert forall|i: int| n < i < name.len() implies name[i] != DOT by {
        assert(name[i] == ext[i - (n + 1)]);
    }
    last_dot_is(name, n);
    assert(name.take(n) =~= stem);
    assert(name.skip(n + 1) =~= ext);
    last_dot_is(ext, -1);
    let hidden = seq![46u8] + ext;
    assert forall|i: int| 0 < i < hidden.len() implies hidden[i] != DOT by {
        assert(hidden[i] == ext[i - 1]);
    }
    last_dot_is(hidden, 0);
}

/// The stem and the extension of a path are those of its file name.
pub proof fn stem_and_extension_are_those_of_the_name(p: Seq<u8>)
    ensures
        file_name(p) is None ==> file_stem(p) is None && extension(p) is None,
        file_name(p) is Some ==> file_stem(p) == Some(stem_of(file_name(p)->0)) && extension(p)
            == extension_of(file_name(p)->0),
{
}

/// A new extension takes the place of the old one, or is put behind a name that has none, and all
/// that stands before stays, byte for byte.
pub proof fn new_extension_takes_the_place_of_the_old(
    before: Seq<u8>,
    stem: Seq<u8>,
    old_ext: Seq<u8>,
    ext: Seq<u8>,
)
    requires
        before.len() > 0 ==> before[before.len() - 1] == 47,
        stem.len() > 0,
        forall|i: int| 0 <= i < stem.len() ==> stem[i] != 47,
        forall|i: int| 0 <= i < old_ext.len() ==> old_ext[i] != 47 && old_ext[i] != 46,
        stem != seq![46u8] || old_ext.len() > 0,
        ext.len() > 0,
    ensures
        with_extension(before + (stem + seq![46u8] + old_ext), ext) == before + stem + seq![46u8]
            + ext,
        (forall|i: int| 0 < i < stem.len() ==> stem[i] != 46) && stem != seq![46u8]
            ==> with_extension(before + stem, ext) == before + stem + seq![46u8] + ext,
        with_extension(before + (stem + seq![46u8] + old_ext), Seq::empty()) == before + stem,
{
    let name = stem + seq![46u8] + old_ext;
    let n = stem.len() as int;
    assert forall|i: int| 0 <= i < name.len() implies name[i] != SEP by {
        if i < n {
            assert(name[i] == stem[i]);
        } else if i > n {
            assert(name[i] == old_ext[i - (n + 1)]);
        }
    }
    if name == seq![DOT, DOT] {
        assert(name.len() == 2);
        assert(stem =~= seq![46u8]);
    }
    extension_stands_behind_the_last_dot(stem, old_ext);
    let p = before + name;
    lemma_name_at_end(before, name);
    lemma_name_begins(before, name);
    assert(p.take(before.len() + n) =~= before + stem);
    assert((before + stem).push(DOT) + ext =~= before + stem + seq![46u8] + ext);
    if (forall|i: int| 0 < i < stem.len() ==> stem[i] != 46) && stem != seq![46u8] {
        let q = before + stem;
        if stem == seq![DOT, DOT] {
            assert(stem[1] == 46);
        }
        lemma_name_at_end(before, stem);
        lemma_name_begins(before, stem);
        last_dot_is_last(stem);
        assert(last_dot(stem) <= 0);
        assert(q.take(before.len() + n) =~= before + stem);
    }
}

proof fn lemma_name_begins(dir: Seq<u8>, name: Seq<u8>)
    requires
        dir.len() > 0 ==> dir.last() == SEP,
        name.len() > 0,
        forall|i: int| 0 <= i < name.len() ==> name[i] != SEP,
        name != seq![DOT],
    ensures
        name_start(dir + name) == dir.len(),
{
    let q = dir + name;
    let c = dir.len() as int;
    let start = body_start(q);
    assert forall|i: int| c <= i < q.len() implies q[i] != SEP by {
        assert(q[i] == name[i - c]);
    }
    if c == 0 && name.len() == 1 && name[0] == DOT {
        assert(name =~= seq![DOT]);
    }
    assert(start <= c);
    lemma_component_start_is(q, start, q.len() as int, c);
    assert(q.subrange(c, q.len() as int) =~= name);
    assert(name_end(q) == q.len());
}

/// A path without a file name takes no extension.
pub proof fn path_without_a_name_takes_no_extension(p: Seq<u8>, ext: Seq<u8>)
    requires
        file_name(p) is None,
    ensures
        with_extension(p, ext) == p,
{
}

/// Joining puts one separator between a directory and a name that does not begin with one, unless
/// the directory ends with one or is empty, and keeps both whole. A name that begins with a
/// separator stands for itself.
pub proof fn joining_keeps_both_whole(dir: Seq<u8>, name: Seq<u8>)
    ensures
        name.len() > 0 && name[0] == 47 ==> join(dir, name) == name,
        (name.len() == 0 || name[0] != 47) && dir.len() > 0 && dir[dir.len() - 1] != 47 ==> join(
            dir,
            name,
        ) == dir + seq![47u8] + name,
        (name.len() == 0 || name[0] != 47) && (dir.len() == 0 || dir[dir.len() - 1] == 47) ==> join(
            dir,
            name,
        ) == dir + name,
{
    assert(dir.push(SEP) + name =~= dir + seq![47u8] + name);
}

/// The bytes of a text are its UTF-8, and a path that is UTF-8 is shown as the text that has just
/// these bytes.
pub proof fn paths_are_shown_whole(p: Seq<u8>, s: Seq<char>)
    ensures
        bytes_of(s) == vstd::utf8::encode_utf8(s),
        vstd::utf8::valid_utf8(p) ==> vstd::utf8::encode_utf8(shown(p)) == p,
        shown(vstd::utf8::encode_utf8(s)) == s,
        !vstd::utf8::valid_utf8(p) ==> shown(p) == lossy(p),
{
    if vstd::utf8::valid_utf8(p) {
        vstd::utf8::decode_utf8_encode_utf8(p);
    }
    vstd::utf8::encode_utf8_valid_utf8(s);
    vstd::utf8::encode_utf8_decode_utf8(s);
}

} // verus!
