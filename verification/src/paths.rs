//! Paths as texts, as Unix has them: `/` alone parts their components.
use vstd::prelude::*;
use crate::text::{
    chars_of, find_last, has_text, last_at, law_the_last_place_is_found, occurs_at, opt_view, same, text_of, views,
};

verus! {

/// Where the part after the last slash begins.
pub open spec fn part_start(p: Seq<char>) -> nat
    decreases p.len(),
{
    if p.len() == 0 {
        0
    } else if p.last() == '/' {
        p.len()
    } else {
        part_start(p.drop_last())
    }
}

/// The part after the last slash begins within the path, and right behind a slash unless it
/// is all of the path.
pub proof fn lemma_part_start(p: Seq<char>)
    ensures
        part_start(p) <= p.len(),
        part_start(p) > 0 ==> p[part_start(p) - 1] == '/',
    decreases p.len(),
{
    if p.len() > 0 && p.last() != '/' {
        lemma_part_start(p.drop_last());
    }
}

/// Whether a part stands for nothing: it is empty or a single dot.
pub open spec fn is_void(part: Seq<char>) -> bool {
    part.len() == 0 || part == seq!['.']
}

/// Whether a part leads upwards.
pub open spec fn is_upward(part: Seq<char>) -> bool {
    part == seq!['.', '.']
}

/// The last part of a path that stands for something, unless it leads upwards.
pub open spec fn file_name_of(p: Seq<char>) -> Option<Seq<char>>
    decreases p.len(),
{
    proof {
        lemma_part_start(p);
    }
    let k = part_start(p);
    let part = p.skip(k as int);
    if is_void(part) {
        if k == 0 {
            None
        } else {
            file_name_of(p.take(k - 1))
        }
    } else if is_upward(part) {
        None
    } else {
        Some(part)
    }
}

/// `p` without the slashes and dots at its end that stand for nothing. A lone slash stays.
pub open spec fn without_tail(p: Seq<char>) -> Seq<char>
    decreases p.len(),
{
    proof {
        lemma_part_start(p);
    }
    if p.len() <= 1 {
        p
    } else if p.last() == '/' {
        without_tail(p.drop_last())
    } else {
        let k = part_start(p);
        if p.skip(k as int) == seq!['.'] && k > 0 {
            without_tail(p.take(k as int))
        } else {
            p
        }
    }
}

/// The path without its last part that stands for something.
pub open spec fn parent_of(p: Seq<char>) -> Seq<char>
    decreases p.len(),
{
    proof {
        lemma_part_start(p);
    }
    let k = part_start(p);
    if is_void(p.skip(k as int)) && k > 0 {
        parent_of(p.take(k - 1))
    } else {
        without_tail(p.take(k as int))
    }
}

/// The parts of a path that stand for something. A dot that begins the path counts.
pub open spec fn parts_of(p: Seq<char>) -> Seq<Seq<char>>
    decreases p.len(),
{
    proof {
        lemma_part_start(p);
    }
    if p.len() == 0 {
        Seq::empty()
    } else {
        let k = part_start(p);
        let part = p.skip(k as int);
        let before = if k == 0 {
            Seq::empty()
        } else {
            parts_of(p.take(k - 1))
        };
        if part.len() == 0 || (part == seq!['.'] && k > 0) {
            before
        } else {
            before.push(part)
        }
    }
}

/// Whether a path begins at the root.
pub open spec fn is_rooted(p: Seq<char>) -> bool {
    p.len() > 0 && p[0] == '/'
}

/// Whether two paths are made of the same parts.
pub open spec fn are_same(a: Seq<char>, b: Seq<char>) -> bool {
    is_rooted(a) == is_rooted(b) && parts_of(a) == parts_of(b)
}

/// The path to `part` below `base`.
pub open spec fn below(base: Seq<char>, part: Seq<char>) -> Seq<char> {
    if base.len() == 0 {
        part
    } else if base.last() == '/' {
        base + part
    } else {
        base + "/"@ + part
    }
}

/// Where the part after the last slash begins among the first `end` characters.
fn find_part(chars: &[char], end: usize) -> (r: usize)
    requires
        end <= chars@.len(),
    ensures
        r == part_start(chars@.take(end as int)),
        r <= end,
        r > 0 ==> chars@[r - 1] == '/',
{
    let mut k: usize = end;
    while 0 < k && chars[k - 1] != '/'
        invariant
            k <= end <= chars@.len(),
            part_start(chars@.take(end as int)) == part_start(chars@.take(k as int)),
        decreases k,
    {
        assert(chars@.take(k as int).drop_last() =~= chars@.take(k - 1));
        k -= 1;
    }
    proof {
        assert(chars@.take(k as int).len() == k);
    }
    k
}

/// Whether the characters from `from` to `to` are a single dot.
fn is_dot(chars: &[char], from: usize, to: usize) -> (r: bool)
    requires
        from <= to <= chars@.len(),
    ensures
        r == (chars@.subrange(from as int, to as int) == seq!['.']),
{
    let r = to - from == 1 && chars[from] == '.';
    proof {
        let part = chars@.subrange(from as int, to as int);
        if r {
            assert(part =~= seq!['.']);
        } else if part == seq!['.'] {
            assert(part.len() == 1);
            assert(part[0] == chars@[from as int]);
            assert(false);
        }
    }
    r
}

/// Whether the characters from `from` to `to` are two dots.
fn is_two_dots(chars: &[char], from: usize, to: usize) -> (r: bool)
    requires
        from <= to <= chars@.len(),
    ensures
        r == is_upward(chars@.subrange(from as int, to as int)),
{
    let r = to - from == 2 && chars[from] == '.' && chars[from + 1] == '.';
    proof {
        let part = chars@.subrange(from as int, to as int);
        if r {
            assert(part =~= seq!['.', '.']);
        } else if part == seq!['.', '.'] {
            assert(part.len() == 2);
            assert(part[0] == chars@[from as int]);
            assert(part[1] == chars@[from + 1]);
            assert(false);
        }
    }
    r
}

/// The last part of a path.
pub fn file_name(path: &str) -> (r: Option<String>)
    ensures
        opt_view(r) == file_name_of(path@),
{
    let chars = chars_of(path);
    let mut end: usize = chars.len();
    assert(path@.take(end as int) =~= path@);
    loop
        invariant
            end <= chars@.len(),
            chars@ == path@,
            file_name_of(path@) == file_name_of(path@.take(end as int)),
        decreases end,
    {
        let ghost now = path@.take(end as int);
        let k: usize = find_part(chars.as_slice(), end);
        assert(now.skip(k as int) =~= path@.subrange(k as int, end as int));
        if k == end || is_dot(chars.as_slice(), k, end) {
            if k == 0 {
                return None;
            }
            assert(now.take(k - 1) =~= path@.take(k - 1));
            end = k - 1;
        } else if is_two_dots(chars.as_slice(), k, end) {
            return None;
        } else {
            return Some(text_of(vstd::slice::slice_subrange(chars.as_slice(), k, end)));
        }
    }
}

/// The path without its last part.
pub fn parent_dir(path: &str) -> (r: String)
    ensures
        r@ == parent_of(path@),
{
    let chars = chars_of(path);
    let mut end: usize = chars.len();
    let mut k: usize = find_part(chars.as_slice(), end);
    assert(path@.take(end as int) =~= path@);
    while k > 0 && (k == end || is_dot(chars.as_slice(), k, end))
        invariant
            k <= end <= chars@.len(),
            chars@ == path@,
            k == part_start(path@.take(end as int)),
            parent_of(path@) == parent_of(path@.take(end as int)),
        decreases end,
    {
        let ghost now = path@.take(end as int);
        proof {
            assert(now.skip(k as int) =~= path@.subrange(k as int, end as int));
            assert(now.take(k - 1) =~= path@.take(k - 1));
        }
        end = k - 1;
        k = find_part(chars.as_slice(), end);
    }
    proof {
        let now = path@.take(end as int);
        assert(now.skip(k as int) =~= path@.subrange(k as int, end as int));
        assert(now.take(k as int) =~= path@.take(k as int));
    }
    let mut stop: usize = k;
    loop
        invariant
            stop <= chars@.len(),
            chars@ == path@,
            parent_of(path@) == without_tail(path@.take(stop as int)),
        ensures
            stop <= chars@.len(),
            chars@ == path@,
            parent_of(path@) == path@.take(stop as int),
        decreases stop,
    {
        let ghost now = path@.take(stop as int);
        if stop <= 1 {
            break ;
        }
        if chars[stop - 1] == '/' {
            assert(now.drop_last() =~= path@.take(stop - 1));
            stop -= 1;
        } else {
            let j: usize = find_part(chars.as_slice(), stop);
            assert(now.skip(j as int) =~= path@.subrange(j as int, stop as int));
            if j > 0 && is_dot(chars.as_slice(), j, stop) {
                assert(now.take(j as int) =~= path@.take(j as int));
                stop = j;
            } else {
                break ;
            }
        }
    }
    assert(path@.subrange(0, stop as int) =~= path@.take(stop as int));
    text_of(vstd::slice::slice_subrange(chars.as_slice(), 0, stop))
}

fn split_parts(chars: &[char], end: usize) -> (r: Vec<String>)
    requires
        end <= chars@.len(),
    ensures
        views(r@) == parts_of(chars@.take(end as int)),
    decreases end,
{
    let ghost now = chars@.take(end as int);
    if end == 0 {
        let none: Vec<String> = Vec::new();
        assert(views(none@) =~= Seq::empty());
        return none;
    }
    let k: usize = find_part(chars, end);
    assert(now.skip(k as int) =~= chars@.subrange(k as int, end as int));
    let mut parts = if k == 0 {
        let none: Vec<String> = Vec::new();
        assert(views(none@) =~= Seq::empty());
        none
    } else {
        assert(now.take(k - 1) =~= chars@.take(k - 1));
        split_parts(chars, k - 1)
    };
    if k < end && !(k > 0 && is_dot(chars, k, end)) {
        let ghost before = views(parts@);
        parts.push(text_of(vstd::slice::slice_subrange(chars, k, end)));
        assert(views(parts@) =~= before.push(now.skip(k as int)));
    }
    parts
}

/// Whether two paths are made of the same parts.
pub fn same_path(a: &str, b: &str) -> (r: bool)
    ensures
        r == are_same(a@, b@),
{
    let x = chars_of(a);
    let y = chars_of(b);
    let rooted_a = x.len() > 0 && x[0] == '/';
    let rooted_b = y.len() > 0 && y[0] == '/';
    assert(a@.take(a@.len() as int) =~= a@);
    assert(b@.take(b@.len() as int) =~= b@);
    let p = split_parts(x.as_slice(), x.len());
    let q = split_parts(y.as_slice(), y.len());
    if rooted_a != rooted_b || p.len() != q.len() {
        assert(views(p@).len() == p@.len());
        assert(views(q@).len() == q@.len());
        return false;
    }
    let mut i: usize = 0;
    while i < p.len()
        invariant
            i <= p@.len() == q@.len(),
            views(p@) == parts_of(a@),
            views(q@) == parts_of(b@),
            forall|k: int| 0 <= k < i ==> #[trigger] p@[k]@ == q@[k]@,
        decreases p@.len() - i,
    {
        if !same(p[i].as_str(), q[i].as_str()) {
            assert(views(p@)[i as int] != views(q@)[i as int]);
            return false;
        }
        i += 1;
    }
    assert(views(p@) =~= views(q@));
    true
}

/// The path to `part` below `base`.
pub fn join_path(base: &str, part: &str) -> (r: String)
    ensures
        r@ == below(base@, part@),
{
    let n: usize = base.unicode_len();
    let mut r = base.to_owned();
    if n > 0 && base.get_char(n - 1) != '/' {
        r.append("/");
    }
    r.append(part);
    assert(n == 0 ==> r@ =~= part@);
    r
}

/// A name before its last dot, and what follows that dot. A name without a dot, or with none
/// but the first character, is not divided.
pub open spec fn stem_and_extension(name: Seq<char>) -> (Seq<char>, Option<Seq<char>>) {
    match last_at(name, "."@) {
        Some(i) => if i > 0 {
            (name.take(i), Some(name.skip(i + 1)))
        } else {
            (name, None)
        },
        None => (name, None),
    }
}

/// The last part of a path before its last dot.
pub open spec fn file_stem_of(p: Seq<char>) -> Option<Seq<char>> {
    match file_name_of(p) {
        Some(name) => Some(stem_and_extension(name).0),
        None => None,
    }
}

/// What follows the last dot in the last part of a path.
pub open spec fn extension_of(p: Seq<char>) -> Option<Seq<char>> {
    match file_name_of(p) {
        Some(name) => stem_and_extension(name).1,
        None => None,
    }
}

fn split_name(name: &str) -> (r: (String, Option<String>))
    ensures
        r.0@ == stem_and_extension(name@).0,
        opt_view(r.1) == stem_and_extension(name@).1,
{
    let chars = chars_of(name);
    let dot = chars_of(".");
    proof {
        reveal_strlit(".");
    }
    let n: usize = name.unicode_len();
    match find_last(chars.as_slice(), dot.as_slice()) {
        Some(i) => {
            if i > 0 {
                assert(name@.subrange(0, i as int) =~= name@.take(i as int));
                assert(name@.subrange(i + 1, n as int) =~= name@.skip(i + 1));
                let stem = name.substring_char(0, i).to_owned();
                let rest = name.substring_char(i + 1, n).to_owned();
                (stem, Some(rest))
            } else {
                (name.to_owned(), None)
            }
        },
        None => (name.to_owned(), None),
    }
}

/// The last part of a path before its last dot.
pub fn file_stem(path: &str) -> (r: Option<String>)
    ensures
        opt_view(r) == file_stem_of(path@),
{
    match file_name(path) {
        Some(name) => Some(split_name(name.as_str()).0),
        None => None,
    }
}

/// What follows the last dot in the last part of a path.
pub fn extension(path: &str) -> (r: Option<String>)
    ensures
        opt_view(r) == extension_of(path@),
{
    match file_name(path) {
        Some(name) => split_name(name.as_str()).1,
        None => None,
    }
}

// ---------------------------------------------------------------------
// Parts of paths
// ---------------------------------------------------------------------

/// What is put below a directory has its own name there, and its directory is the one that it
/// was put below; slashes at the end of a path make no difference to its name.
pub proof fn law_names_are_the_last_parts(base: Seq<char>, name: Seq<char>)
    requires
        name.len() > 0,
        forall|i: int| 0 <= i < name.len() ==> #[trigger] name[i] != '/',
        name != seq!['.'],
        name != seq!['.', '.'],
    ensures
        file_name_of(name) == Some(name),
        file_name_of(base + seq!['/'] + name) == Some(name),
        file_name_of(below(base, name)) == Some(name),
        file_name_of((base + seq!['/'] + name).push('/')) == Some(name),
        base.len() > 0 && base.last() != '/' && base.last() != '.' ==> parent_of(base + seq!['/'] + name) == base,
{
    reveal_strlit("/");
    assert("/"@ =~= seq!['/']);
    lemma_start_of_last(Seq::empty(), name);
    assert(Seq::<char>::empty() + name =~= name);
    assert(name.skip(0) =~= name);
    let head = base + seq!['/'];
    let all = head + name;
    assert(all =~= base + seq!['/'] + name);
    lemma_start_of_last(head, name);
    assert(all.skip(head.len() as int) =~= name);
    let slashed = all.push('/');
    assert(slashed.last() == '/');
    assert(part_start(slashed) == slashed.len());
    assert(slashed.skip(slashed.len() as int) =~= Seq::empty());
    assert(slashed.take(slashed.len() - 1) =~= all);
    if base.len() > 0 && base.last() == '/' {
        lemma_start_of_last(base, name);
        assert((base + name).skip(base.len() as int) =~= name);
    }
    if base.len() == 0 {
        assert(below(base, name) =~= name);
    }
    if base.len() > 0 && base.last() != '/' && base.last() != '.' {
        assert(all.take(head.len() as int) =~= head);
        assert(head.last() == '/');
        assert(head.drop_last() =~= base);
        assert(without_tail(head) == without_tail(base));
        if base.len() > 1 {
            lemma_part_start(base);
            let k = part_start(base);
            if base.skip(k as int) == seq!['.'] {
                assert(base.skip(k as int).last() == base.last());
            }
            assert(without_tail(base) == base);
        }
    }
}

proof fn lemma_start_of_last(head: Seq<char>, name: Seq<char>)
    requires
        head.len() == 0 || head.last() == '/',
        forall|i: int| 0 <= i < name.len() ==> #[trigger] name[i] != '/',
    ensures
        part_start(head + name) == head.len(),
    decreases name.len(),
{
    if name.len() == 0 {
        assert(head + name =~= head);
    } else {
        assert((head + name).last() == name[name.len() - 1]);
        assert((head + name).drop_last() =~= head + name.drop_last());
        assert forall|i: int| 0 <= i < name.drop_last().len() implies #[trigger] name.drop_last()[i] != '/' by {
            assert(name.drop_last()[i] == name[i]);
        }
        lemma_start_of_last(head, name.drop_last());
    }
}

/// Two paths are the same if they have the same parts; a slash at the end and a `.` between
/// two slashes make no difference, and a rooted path is never one that is not.
pub proof fn law_paths_are_the_same_by_their_parts(p: Seq<char>, q: Seq<char>)
    ensures
        are_same(p, p),
        are_same(p, q) ==> are_same(q, p),
        p.len() > 0 ==> are_same(p, p.push('/')),
        p.len() > 0 ==> are_same(p, p + seq!['/', '.']),
        p.len() > 0 && p[0] == '/' && (q.len() == 0 || q[0] != '/') ==> !are_same(p, q),
{
    if p.len() > 0 {
        let slashed = p.push('/');
        assert(part_start(slashed) == slashed.len());
        assert(slashed.skip(slashed.len() as int) =~= Seq::empty());
        assert(slashed.take(slashed.len() - 1) =~= p);
        let dotted = p + seq!['/', '.'];
        let dot = seq!['.'];
        lemma_start_of_last(slashed, dot);
        assert(dotted =~= slashed + dot);
        assert(dotted.skip(slashed.len() as int) =~= dot);
        assert(dotted.take(slashed.len() - 1) =~= p);
    }
}

/// A part that is added to a path is its last part, so that paths with different names in one
/// directory are different.
pub proof fn law_parts_are_added_at_the_end(base: Seq<char>, name: Seq<char>)
    requires
        base.len() > 0,
        name.len() > 0,
        forall|i: int| 0 <= i < name.len() ==> #[trigger] name[i] != '/',
        name != seq!['.'],
    ensures
        parts_of(base + seq!['/'] + name) == parts_of(base).push(name),
        parts_of(below(base, name)) == parts_of(base).push(name),
{
    reveal_strlit("/");
    assert("/"@ =~= seq!['/']);
    let head = base + seq!['/'];
    let all = head + name;
    assert(all =~= base + seq!['/'] + name);
    lemma_start_of_last(head, name);
    assert(all.skip(head.len() as int) =~= name);
    assert(all.take(head.len() - 1) =~= base);
    if base.last() == '/' {
        lemma_start_of_last(base, name);
        let other = base + name;
        assert(other.skip(base.len() as int) =~= name);
        assert(other.take(base.len() - 1) =~= base.drop_last());
        assert(part_start(base) == base.len());
        assert(base.skip(base.len() as int) =~= Seq::empty());
        assert(base.take(base.len() - 1) =~= base.drop_last());
    }
}

/// A name is parted at its last dot, unless it begins with it.
pub proof fn law_a_name_is_parted_at_its_last_dot(stem: Seq<char>, extension: Seq<char>)
    requires
        forall|i: int| 0 <= i < extension.len() ==> #[trigger] extension[i] != '.',
    ensures
        stem.len() > 0 ==> stem_and_extension(stem + seq!['.'] + extension) == (stem, Some(extension)),
        stem_and_extension(extension) == (extension, None::<Seq<char>>),
        stem_and_extension(seq!['.'] + extension) == (seq!['.'] + extension, None::<Seq<char>>),
{
    reveal_strlit(".");
    assert("."@ =~= seq!['.']);
    lemma_last_dot(stem, extension);
    lemma_last_dot(Seq::empty(), extension);
    assert(Seq::<char>::empty() + seq!['.'] + extension =~= seq!['.'] + extension);
    let name = stem + seq!['.'] + extension;
    assert(name.take(stem.len() as int) =~= stem);
    assert(name.skip(stem.len() as int + 1) =~= extension);
    assert(!has_text(extension, "."@)) by {
        if has_text(extension, "."@) {
            let i = choose|i: int| occurs_at(extension, "."@, i);
            assert(extension.subrange(i, i + 1)[0] == extension[i]);
        }
    }
    law_the_last_place_is_found(extension, "."@, 0);
}

proof fn lemma_last_dot(stem: Seq<char>, extension: Seq<char>)
    requires
        forall|i: int| 0 <= i < extension.len() ==> #[trigger] extension[i] != '.',
        "."@ == seq!['.'],
    ensures
        last_at(stem + seq!['.'] + extension, "."@) == Some(stem.len() as int),
{
    let name = stem + seq!['.'] + extension;
    let at = stem.len() as int;
    assert(name.subrange(at, at + 1) =~= seq!['.']);
    assert(occurs_at(name, "."@, at));
    assert forall|j: int| at < j implies !occurs_at(name, "."@, j) by {
        if occurs_at(name, "."@, j) {
            assert(name.subrange(j, j + 1)[0] == name[j]);
            assert(name[j] == extension[j - at - 1]);
        }
    }
    law_the_last_place_is_found(name, "."@, at);
}

} // verus!
