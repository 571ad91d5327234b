//! Titles of native sessions, and the identifiers they go with.
use vstd::prelude::*;
use crate::text::{
    after_first, after_last, before_last, byte_len, byte_prefix, chars_of, ends_with, find_last, first_bytes, has_prefix,
    has_suffix, has_text, is_space, last_at, law_a_beginning_of_so_many_bytes, law_texts_are_parted_at_marks,
    law_the_last_place_is_found, lemma_trimmed_shape, lines_of, occurs_at, part_after_first, part_before_last,
    rest_after_last, same, split_lines, starts_with, trim, trimmed, views,
};

verus! {

/// Whether `c` is a hexadecimal digit.
pub open spec fn is_hex_digit(c: char) -> bool {
    '0' <= c <= '9' || 'a' <= c <= 'f' || 'A' <= c <= 'F'
}

/// Whether the position `i` of a session's identifier is taken by a hyphen.
pub open spec fn is_hyphen_place(i: int) -> bool {
    i == 8 || i == 13 || i == 18 || i == 23
}

/// Whether `s` has the shape of a session's identifier: groups of 8, 4, 4, 4 and 12
/// hexadecimal digits with hyphens between them.
pub open spec fn is_uuid(s: Seq<char>) -> bool {
    s.len() == 36 && forall|i: int|
        0 <= i < 36 ==> if is_hyphen_place(i) {
            #[trigger] s[i] == '-'
        } else {
            is_hex_digit(s[i])
        }
}

/// Whether a text has the shape of a session's identifier.
pub fn looks_like_uuid(value: &str) -> (r: bool)
    ensures
        r == is_uuid(value@),
{
    let chars = chars_of(value);
    if chars.len() != 36 {
        return false;
    }
    let mut i: usize = 0;
    while i < 36
        invariant
            i <= 36 == chars@.len(),
            chars@ == value@,
            forall|k: int|
                0 <= k < i ==> if is_hyphen_place(k) {
                    #[trigger] value@[k] == '-'
                } else {
                    is_hex_digit(value@[k])
                },
        decreases 36 - i,
    {
        let c: char = chars[i];
        let fits = if i == 8 || i == 13 || i == 18 || i == 23 {
            c == '-'
        } else {
            ('0' <= c && c <= '9') || ('a' <= c && c <= 'f') || ('A' <= c && c <= 'F')
        };
        if !fits {
            assert(value@[i as int] == c);
            return false;
        }
        i += 1;
    }
    true
}

/// The first eight bytes of `s`, or all of it where they do not end at a character.
pub open spec fn short_of(s: Seq<char>) -> Seq<char> {
    match byte_prefix(s, 8) {
        Some(k) => s.take(k as int),
        None => s,
    }
}

/// The short form of an identifier.
pub fn short_id(value: &str) -> (r: &str)
    ensures
        r@ == short_of(value@),
{
    match first_bytes(value, 8) {
        Some(t) => t,
        None => value,
    }
}

/// The first line that holds more than whitespace, trimmed; empty where there is none.
pub open spec fn first_filled(lines: Seq<Seq<char>>) -> Seq<char>
    decreases lines.len(),
{
    if lines.len() == 0 {
        Seq::empty()
    } else if trimmed(lines[0]).len() > 0 {
        trimmed(lines[0])
    } else {
        first_filled(lines.drop_first())
    }
}

/// The first line that holds more than whitespace.
pub fn first_nonempty_line(value: &str) -> (r: String)
    ensures
        r@ == first_filled(lines_of(value@)),
{
    let lines = split_lines(value);
    let ghost all = views(lines@);
    let mut i: usize = 0;
    assert(all.skip(0) =~= all);
    while i < lines.len()
        invariant
            i <= lines@.len(),
            all == views(lines@),
            all == lines_of(value@),
            first_filled(all) == first_filled(all.skip(i as int)),
        decreases lines@.len() - i,
    {
        assert(all.skip(i as int).drop_first() =~= all.skip(i + 1));
        let line = trim(lines[i].as_str());
        if !line.is_empty() {
            return line.to_owned();
        }
        i += 1;
    }
    String::new()
}

/// Whether a trimmed line can be a title: it is not empty, no markup and no list of files.
pub open spec fn can_be_title(line: Seq<char>) -> bool {
    line.len() > 0 && line[0] != '<' && !has_prefix(line, "# Files mentioned"@) && !has_prefix(line, "<image"@)
}

/// The first line that can be a title, trimmed; empty where there is none.
pub open spec fn first_title(lines: Seq<Seq<char>>) -> Seq<char>
    decreases lines.len(),
{
    if lines.len() == 0 {
        Seq::empty()
    } else if can_be_title(trimmed(lines[0])) {
        trimmed(lines[0])
    } else {
        first_title(lines.drop_first())
    }
}

/// The part of a prompt in which the title is looked for: what follows the last heading of
/// the request, else the last end of the ambient context, else all of it.
pub open spec fn request_part(prompt: Seq<char>) -> Seq<char> {
    match after_last(prompt, "## My request:"@) {
        Some(rest) => rest,
        None => match after_last(prompt, "</environment_context>"@) {
            Some(rest) => rest,
            None => prompt,
        },
    }
}

/// The title that a prompt gives to its session.
pub open spec fn prompt_title(prompt: Seq<char>) -> Seq<char> {
    first_title(lines_of(request_part(prompt)))
}

/// The title that a prompt gives to its session; empty where it gives none.
pub fn title_from_codex_prompt(prompt: &str) -> (r: String)
    ensures
        r@ == prompt_title(prompt@),
{
    let part = match rest_after_last(prompt, "## My request:") {
        Some(rest) => rest,
        None => match rest_after_last(prompt, "</environment_context>") {
            Some(rest) => rest,
            None => prompt,
        },
    };
    let lines = split_lines(part);
    let ghost all = views(lines@);
    let mut i: usize = 0;
    assert(all.skip(0) =~= all);
    while i < lines.len()
        invariant
            i <= lines@.len(),
            all == views(lines@),
            all == lines_of(request_part(prompt@)),
            first_title(all) == first_title(all.skip(i as int)),
        decreases lines@.len() - i,
    {
        assert(all.skip(i as int).drop_first() =~= all.skip(i + 1));
        let line = trim(lines[i].as_str());
        proof {
            reveal_strlit("<");
            assert("<"@ =~= seq!['<']);
            if line@.len() > 0 {
                assert(line@.take(1) =~= seq![line@[0]]);
                if line@[0] != '<' && has_prefix(line@, "<"@) {
                    assert(line@.take(1)[0] == '<');
                }
            }
        }
        if !line.is_empty() && !starts_with(line, "<") && !starts_with(line, "# Files mentioned") && !starts_with(
            line,
            "<image",
        ) {
            return line.to_owned();
        }
        i += 1;
    }
    String::new()
}

// ---------------------------------------------------------------------
// The list of sessions that a command prints
// ---------------------------------------------------------------------

/// The identifier and the title in a row such as `1. Title (age) [identifier]`.
pub open spec fn title_row(line: Seq<char>) -> Option<(Seq<char>, Seq<char>)> {
    let row = trimmed(line);
    match last_at(row, " ["@) {
        None => None,
        Some(open) => {
            let id = row.subrange(open + 2, row.len() - 1);
            let without_age = trimmed(before_last(row.take(open), " ("@));
            let title = trimmed(after_first(without_age, ". "@));
            if has_suffix(row, "]"@) && is_uuid(id) && title.len() > 0 {
                Some((id, title))
            } else {
                None
            }
        },
    }
}

/// The titles that the rows give, by identifier. Of two rows with one identifier the later
/// one counts.
pub open spec fn titles_in(lines: Seq<Seq<char>>) -> Map<Seq<char>, Seq<char>>
    decreases lines.len(),
{
    if lines.len() == 0 {
        Map::empty()
    } else {
        match title_row(lines.last()) {
            Some((id, title)) => titles_in(lines.drop_last()).insert(id, title),
            None => titles_in(lines.drop_last()),
        }
    }
}

/// Titles by the identifiers of their sessions.
#[derive(Debug, Clone)]
pub struct QoderTitles {
    entries: Vec<(String, String)>,
}

spec fn entry_map(entries: Seq<(String, String)>) -> Map<Seq<char>, Seq<char>>
    decreases entries.len(),
{
    if entries.len() == 0 {
        Map::empty()
    } else {
        entry_map(entries.drop_last()).insert(entries.last().0@, entries.last().1@)
    }
}

impl View for QoderTitles {
    type V = Map<Seq<char>, Seq<char>>;

    closed spec fn view(&self) -> Map<Seq<char>, Seq<char>> {
        entry_map(self.entries@)
    }
}

impl QoderTitles {
    /// No titles.
    pub fn new() -> (r: QoderTitles)
        ensures
            r@ == Map::<Seq<char>, Seq<char>>::empty(),
    {
        QoderTitles { entries: Vec::new() }
    }

    /// Gives a session a title.
    pub fn insert(&mut self, id: String, title: String)
        ensures
            final(self)@ == old(self)@.insert(id@, title@),
    {
        let ghost before = self.entries@;
        self.entries.push((id, title));
        assert(self.entries@.drop_last() =~= before);
    }

    /// The title of a session.
    pub fn get(&self, id: &str) -> (r: Option<&String>)
        ensures
            match r {
                Some(t) => self@.contains_key(id@) && self@[id@] == t@,
                None => !self@.contains_key(id@),
            },
    {
        let ghost all = self.entries@;
        let mut i: usize = self.entries.len();
        assert(all.take(i as int) =~= all);
        while 0 < i
            invariant
                i <= self.entries@.len(),
                all == self.entries@,
                entry_map(all).contains_key(id@) == entry_map(all.take(i as int)).contains_key(id@),
                entry_map(all).contains_key(id@) ==> entry_map(all)[id@] == entry_map(all.take(i as int))[id@],
            decreases i,
        {
            i -= 1;
            assert(all.take(i + 1).drop_last() =~= all.take(i as int));
            if same(self.entries[i].0.as_str(), id) {
                return Some(&self.entries[i].1);
            }
        }
        None
    }
}

/// Reads one row of the list.
fn parse_title_row(line: &str) -> (r: Option<(String, String)>)
    ensures
        match r {
            Some((id, title)) => title_row(line@) == Some((id@, title@)),
            None => title_row(line@) is None,
        },
{
    let row = trim(line);
    let chars = chars_of(row);
    let mark = chars_of(" [");
    let n: usize = chars.len();
    proof {
        reveal_strlit(" [");
        reveal_strlit("]");
    }
    let open: usize = match find_last(chars.as_slice(), mark.as_slice()) {
        Some(i) => i,
        None => {
            return None;
        },
    };
    if !ends_with(row, "]") {
        return None;
    }
    proof {
        assert(row@.skip(n - 1)[0] == "]"@[0]);
        assert(row@.subrange(open as int, open + 2)[1] == " ["@[1]);
        assert(row@[open + 1] == '[');
        assert(row@[n - 1] == ']');
    }
    let id = row.substring_char(open + 2, n - 1);
    if !looks_like_uuid(id) {
        return None;
    }
    assert(row@.subrange(0, open as int) =~= row@.take(open as int));
    let head = row.substring_char(0, open);
    let without_age = trim(part_before_last(head, " ("));
    let title = trim(part_after_first(without_age, ". "));
    if title.is_empty() {
        None
    } else {
        Some((id.to_owned(), title.to_owned()))
    }
}

/// Reads the list of sessions that a command printed.
pub fn parse_qoder_titles(output: &str) -> (r: QoderTitles)
    ensures
        r@ == titles_in(lines_of(output@)),
{
    let lines = split_lines(output);
    let ghost all = views(lines@);
    let mut titles = QoderTitles::new();
    let mut i: usize = 0;
    assert(all.take(0) =~= Seq::empty());
    while i < lines.len()
        invariant
            i <= lines@.len(),
            all == views(lines@),
            titles@ == titles_in(all.take(i as int)),
        decreases lines@.len() - i,
    {
        proof {
            assert(all.take(i + 1).drop_last() =~= all.take(i as int));
            assert(all.take(i + 1).last() == lines@[i as int]@);
        }
        if let Some((id, title)) = parse_title_row(lines[i].as_str()) {
            titles.insert(id, title);
        }
        i += 1;
    }
    assert(all.take(i as int) =~= all);
    titles
}

/// Only what has the shape of an identifier gets a title, and no title is blank.
pub proof fn law_titles_are_sound(lines: Seq<Seq<char>>, id: Seq<char>)
    ensures
        titles_in(lines).contains_key(id) ==> is_uuid(id) && titles_in(lines)[id].len() > 0,
    decreases lines.len(),
{
    if lines.len() > 0 {
        law_titles_are_sound(lines.drop_last(), id);
    }
}

// ---------------------------------------------------------------------
// What becomes a title
// ---------------------------------------------------------------------

/// An identifier of ASCII characters is shortened to its first eight; a shorter one is kept
/// whole.
pub proof fn law_identifiers_are_shortened_to_eight(s: Seq<char>)
    requires
        forall|i: int| 0 <= i < s.len() ==> #[trigger] s[i] as int <= 0x7f,
    ensures
        s.len() >= 8 ==> short_of(s) == s.take(8),
        s.len() <= 8 ==> short_of(s) == s,
{
    if s.len() >= 8 {
        lemma_ascii_bytes(s.take(8));
        law_a_beginning_of_so_many_bytes(s, 8);
        assert(s.len() == 8 ==> s.take(8) =~= s);
    } else {
        lemma_too_short(s, 8);
    }
}

proof fn lemma_ascii_bytes(s: Seq<char>)
    requires
        forall|i: int| 0 <= i < s.len() ==> #[trigger] s[i] as int <= 0x7f,
    ensures
        byte_len(s) == s.len(),
    decreases s.len(),
{
    if s.len() > 0 {
        assert(s.last() as int <= 0x7f);
        lemma_ascii_bytes(s.drop_last());
    }
}

proof fn lemma_too_short(s: Seq<char>, n: int)
    requires
        forall|i: int| 0 <= i < s.len() ==> #[trigger] s[i] as int <= 0x7f,
        s.len() < n,
    ensures
        byte_prefix(s, n) is None,
    decreases s.len(),
{
    if s.len() > 0 {
        let rest = s.drop_first();
        assert(s[0] as int <= 0x7f);
        assert forall|i: int| 0 <= i < rest.len() implies #[trigger] rest[i] as int <= 0x7f by {
            assert(rest[i] == s[i + 1]);
        }
        lemma_too_short(rest, n - 1);
    }
}

/// The first line that holds more than whitespace is taken, trimmed.
pub proof fn law_the_first_filled_line_is_taken(lines: Seq<Seq<char>>, k: int)
    ensures
        0 <= k < lines.len() && trimmed(lines[k]).len() > 0 && (forall|i: int|
            0 <= i < k ==> trimmed(#[trigger] lines[i]).len() == 0) ==> first_filled(lines) == trimmed(lines[k]),
        (forall|i: int| 0 <= i < lines.len() ==> trimmed(#[trigger] lines[i]).len() == 0) ==> first_filled(
            lines,
        ).len() == 0,
    decreases lines.len(),
{
    if lines.len() > 0 {
        let rest = lines.drop_first();
        law_the_first_filled_line_is_taken(rest, k - 1);
        assert(forall|i: int| 0 <= i < rest.len() ==> #[trigger] rest[i] == lines[i + 1]);
        assert(0 < k < lines.len() ==> rest[k - 1] == lines[k]);
    }
}

/// The title of a request is its first line, trimmed, that holds something, opens no markup
/// and begins no list of files; there is none if no line does.
pub proof fn law_the_first_fitting_line_is_the_title(lines: Seq<Seq<char>>, k: int)
    ensures
        0 <= k < lines.len() && trimmed(lines[k]).len() > 0 && trimmed(lines[k])[0] != '<' && !has_prefix(
            trimmed(lines[k]),
            "# Files mentioned"@,
        ) && (forall|i: int|
            0 <= i < k ==> trimmed(#[trigger] lines[i]).len() == 0 || trimmed(lines[i])[0] == '<' || has_prefix(
                trimmed(lines[i]),
                "# Files mentioned"@,
            )) ==> first_title(lines) == trimmed(lines[k]),
        (forall|i: int|
            0 <= i < lines.len() ==> trimmed(#[trigger] lines[i]).len() == 0 || trimmed(lines[i])[0] == '<'
                || has_prefix(trimmed(lines[i]), "# Files mentioned"@)) ==> first_title(lines).len() == 0,
    decreases lines.len(),
{
    if lines.len() > 0 {
        let rest = lines.drop_first();
        law_the_first_fitting_line_is_the_title(rest, k - 1);
        assert(forall|i: int| 0 <= i < rest.len() ==> #[trigger] rest[i] == lines[i + 1]);
        assert(0 < k < lines.len() ==> rest[k - 1] == lines[k]);
        let first = trimmed(lines[0]);
        if first.len() > 0 && has_prefix(first, "<image"@) {
            reveal_strlit("<image");
            assert("<image"@[0] == '<');
            assert(first.take("<image"@.len() as int)[0] == first[0]);
        }
    }
}

/// Of a prompt only the request itself is looked at: what follows the last `## My request:`,
/// or else the last `</environment_context>`, or else all of it.
pub proof fn law_the_request_is_what_follows_its_mark(a: Seq<char>, b: Seq<char>)
    ensures
        (forall|j: int|
            a.len() < j ==> !occurs_at(a + "## My request:"@ + b, "## My request:"@, j)) ==> prompt_title(
            a + "## My request:"@ + b,
        ) == first_title(lines_of(b)),
        !has_text(a + "</environment_context>"@ + b, "## My request:"@) && (forall|j: int|
            a.len() < j ==> !occurs_at(a + "</environment_context>"@ + b, "</environment_context>"@, j))
            ==> prompt_title(a + "</environment_context>"@ + b) == first_title(lines_of(b)),
        !has_text(a, "## My request:"@) && !has_text(a, "</environment_context>"@) ==> prompt_title(a) == first_title(
            lines_of(a),
        ),
{
    reveal_strlit("## My request:");
    reveal_strlit("</environment_context>");
    assert("## My request:"@.len() == 14);
    assert("</environment_context>"@.len() == 22);
    law_texts_are_parted_at_marks(a, "## My request:"@, b);
    law_texts_are_parted_at_marks(a, "</environment_context>"@, b);
    law_texts_are_parted_at_marks(a + "</environment_context>"@ + b, "## My request:"@, b);
}

/// A row of the list is a number, a title, an age and an identifier; the title is taken
/// without the rest, whatever brackets it holds.
pub proof fn law_a_row_names_session_and_title(
    number: Seq<char>,
    title: Seq<char>,
    age: Seq<char>,
    id: Seq<char>,
)
    requires
        is_uuid(id),
        title.len() > 0,
        trimmed(title) == title,
        number.len() > 0,
        !is_space(number[0]),
        forall|j: int| j < number.len() ==> !occurs_at(number + ". "@ + title, ". "@, j),
        forall|j: int|
            (number + ". "@ + title).len() < j ==> !occurs_at(number + ". "@ + title + " ("@ + age, " ("@, j),
        forall|j: int|
            (number + ". "@ + title + " ("@ + age).len() < j ==> !occurs_at(
                number + ". "@ + title + " ("@ + age + " ["@ + (id + "]"@),
                " ["@,
                j,
            ),
    ensures
        title_row(number + ". "@ + title + " ("@ + age + " ["@ + (id + "]"@)) == Some((id, title)),
{
    reveal_strlit(". ");
    reveal_strlit(" (");
    reveal_strlit(" [");
    reveal_strlit("]");
    assert(". "@.len() == 2 && " ("@.len() == 2 && " ["@.len() == 2 && "]"@.len() == 1);
    assert("]"@[0] == ']');
    assert(!is_space(']'));
    let named = number + ". "@ + title;
    let aged = named + " ("@ + age;
    let row = aged + " ["@ + (id + "]"@);
    assert(row[0] == number[0]);
    assert(row.last() == ']');
    assert(trimmed(row) == row);
    law_the_last_place_is_found(row, " ["@, aged.len() as int);
    assert(row.subrange(aged.len() as int, aged.len() as int + 2) =~= " ["@);
    assert(occurs_at(row, " ["@, aged.len() as int));
    assert(last_at(row, " ["@) == Some(aged.len() as int));
    assert(row.subrange(aged.len() as int + 2, row.len() - 1) =~= id);
    assert(row.take(aged.len() as int) =~= aged);
    law_texts_are_parted_at_marks(named, " ("@, age);
    assert(before_last(aged, " ("@) == named);
    assert(named[0] == number[0]);
    lemma_trimmed_shape(title);
    assert(named.last() == title.last());
    assert(!is_space(title.last()));
    assert(trimmed(named) == named);
    law_texts_are_parted_at_marks(number, ". "@, title);
    assert(after_first(named, ". "@) == title);
    assert(row.skip(row.len() - 1) =~= "]"@);
}

/// Where a session is listed several times its last row counts.
pub proof fn law_the_last_row_counts(lines: Seq<Seq<char>>, k: int, id: Seq<char>, title: Seq<char>)
    requires
        0 <= k < lines.len(),
        title_row(lines[k]) == Some((id, title)),
        forall|j: int|
            k < j < lines.len() ==> title_row(#[trigger] lines[j]) is None || title_row(lines[j]).unwrap().0 != id,
    ensures
        titles_in(lines).contains_key(id) && titles_in(lines)[id] == title,
    decreases lines.len(),
{
    if k < lines.len() - 1 {
        let init = lines.drop_last();
        assert(lines[lines.len() - 1] == lines.last());
        assert(forall|j: int| 0 <= j < init.len() ==> #[trigger] init[j] == lines[j]);
        law_the_last_row_counts(init, k, id, title);
    }
}

/// An identifier is of the usual form if it is 32 hexadecimal digits in groups of 8, 4, 4, 4
/// and 12, parted by hyphens.
pub proof fn law_identifiers_have_five_groups(s: Seq<char>)
    ensures
        is_uuid(s) ==> s.len() == 36 && s[8] == '-' && s[13] == '-' && s[18] == '-' && s[23] == '-',
        is_uuid(s) ==> forall|i: int|
            0 <= i < 36 && i != 8 && i != 13 && i != 18 && i != 23 ==> '0' <= #[trigger] s[i] <= '9' || 'a' <= s[i]
                <= 'f' || 'A' <= s[i] <= 'F',
        s.len() == 36 && s[8] == '-' && s[13] == '-' && s[18] == '-' && s[23] == '-' && (forall|i: int|
            0 <= i < 36 && i != 8 && i != 13 && i != 18 && i != 23 ==> '0' <= #[trigger] s[i] <= '9' || 'a' <= s[i]
                <= 'f' || 'A' <= s[i] <= 'F') ==> is_uuid(s),
{
}

} // verus!
