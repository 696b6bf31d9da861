//! The table of administrative divisions, read from comma-separated text.

use vstd::prelude::*;
use crate::text::{chars_of, find_char, find_from, lemma_find_from, str_eq, string_of, substring_of, texts};
use crate::textmap::TextMap;

verus! {

// ------------------------------------------------------------------------- CSV
/// The fields of the rest of a line, where `current` is what the field under way has so far and
/// `quoted` tells whether it is inside quotes. Inside quotes two quotes stand for one.
pub open spec fn csv_rest(s: Seq<char>, current: Seq<char>, quoted: bool) -> Seq<Seq<char>>
    decreases s.len(),
{
    if s.len() == 0 {
        seq![current]
    } else if s[0] == '"' {
        if quoted && s.len() > 1 && s[1] == '"' {
            csv_rest(s.skip(2), current.push('"'), true)
        } else {
            csv_rest(s.skip(1), current, !quoted)
        }
    } else if s[0] == ',' && !quoted {
        seq![current] + csv_rest(s.skip(1), Seq::empty(), false)
    } else {
        csv_rest(s.skip(1), current.push(s[0]), quoted)
    }
}

/// The fields of a line of comma-separated text.
pub open spec fn csv_fields(line: Seq<char>) -> Seq<Seq<char>> {
    csv_rest(line, Seq::empty(), false)
}

/// Reads a line of comma-separated text. Fields may stand in quotes.
pub fn parse_csv_line(line: &str) -> (fields: Vec<String>)
    ensures
        texts(fields@) == csv_fields(line@),
{
    let chars = chars_of(line);
    let ghost s = chars@;
    let mut fields: Vec<String> = Vec::new();
    let mut current: Vec<char> = Vec::new();
    let mut quoted = false;
    let mut i: usize = 0;
    assert(s.skip(0) =~= s);
    assert(texts(fields@) + csv_fields(s) =~= csv_fields(s));
    while i < chars.len()
        invariant
            i <= chars.len(),
            s == chars@,
            texts(fields@) + csv_rest(s.skip(i as int), current@, quoted) == csv_fields(s),
        decreases chars.len() - i,
    {
        let c = chars[i];
        let ghost rest = s.skip(i as int);
        let ghost done = texts(fields@);
        assert(rest.skip(1) =~= s.skip(i + 1));
        assert(rest[0] == c);
        if c == '"' {
            if quoted && i + 1 < chars.len() && chars[i + 1] == '"' {
                assert(rest.skip(2) =~= s.skip(i + 2));
                current.push('"');
                i += 1;
            } else {
                quoted = !quoted;
            }
        } else if c == ',' && !quoted {
            let field = string_of(current.as_slice());
            fields.push(field);
            assert(texts(fields@) =~= done.push(current@));
            assert(done.push(current@) + csv_rest(rest.skip(1), Seq::empty(), false) =~= done + (
            seq![current@] + csv_rest(rest.skip(1), Seq::empty(), false)));
            current = Vec::new();
        } else {
            current.push(c);
        }
        i += 1;
    }
    let ghost done = texts(fields@);
    let field = string_of(current.as_slice());
    fields.push(field);
    assert(s.skip(i as int).len() == 0);
    assert(texts(fields@) =~= done + seq![current@]);
    fields
}

/// A field with each quote doubled.
pub open spec fn doubled(field: Seq<char>) -> Seq<char>
    decreases field.len(),
{
    if field.len() == 0 {
        field
    } else if field[0] == '"' {
        seq!['"', '"'] + doubled(field.skip(1))
    } else {
        seq![field[0]] + doubled(field.skip(1))
    }
}

/// Fields in quotes, with commas between them.
pub open spec fn csv_line(fields: Seq<Seq<char>>) -> Seq<char>
    decreases fields.len(),
{
    if fields.len() == 0 {
        Seq::empty()
    } else if fields.len() == 1 {
        seq!['"'] + doubled(fields[0]) + seq!['"']
    } else {
        seq!['"'] + doubled(fields[0]) + seq!['"'] + seq![','] + csv_line(fields.skip(1))
    }
}

proof fn lemma_doubled(field: Seq<char>, rest: Seq<char>, current: Seq<char>)
    requires
        rest.len() > 0 ==> rest[0] != '"',
    ensures
        csv_rest(doubled(field) + seq!['"'] + rest, current, true) == csv_rest(
            rest,
            current + field,
            false,
        ),
    decreases field.len(),
{
    let s = doubled(field) + seq!['"'] + rest;
    if field.len() == 0 {
        assert(s.skip(1) =~= rest);
        assert(current + field =~= current);
        assert(s[0] == '"');
        assert(s.len() > 1 ==> s[1] == rest[0]);
    } else {
        let tail = doubled(field.skip(1)) + seq!['"'] + rest;
        lemma_doubled(field.skip(1), rest, current.push(field[0]));
        assert(current.push(field[0]) + field.skip(1) =~= current + field);
        if field[0] == '"' {
            assert(s[0] == '"' && s[1] == '"');
            assert(s.skip(2) =~= tail);
        } else {
            assert(s[0] == field[0]);
            assert(s.skip(1) =~= tail);
        }
    }
}

/// Fields that were written in quotes are read back, whatever they hold.
pub proof fn quoted_fields_are_read_back(fields: Seq<Seq<char>>)
    requires
        fields.len() > 0,
    ensures
        csv_fields(csv_line(fields)) == fields,
    decreases fields.len(),
{
    let line = csv_line(fields);
    let none = Seq::<char>::empty();
    if fields.len() == 1 {
        assert(line.skip(1) =~= doubled(fields[0]) + seq!['"'] + none);
        lemma_doubled(fields[0], none, none);
        assert(none + fields[0] =~= fields[0]);
        assert(seq![fields[0]] =~= fields);
    } else {
        let rest = seq![','] + csv_line(fields.skip(1));
        assert(line.skip(1) =~= doubled(fields[0]) + seq!['"'] + rest);
        lemma_doubled(fields[0], rest, none);
        assert(none + fields[0] =~= fields[0]);
        quoted_fields_are_read_back(fields.skip(1));
        assert(rest.skip(1) =~= csv_line(fields.skip(1)));
        assert(seq![fields[0]] + fields.skip(1) =~= fields);
    }
}

// ----------------------------------------------------------------------- lines
/// A line without the carriage return before its line feed.
pub open spec fn without_return(line: Seq<char>) -> Seq<char> {
    if line.len() > 0 && line.last() == '\r' {
        line.drop_last()
    } else {
        line
    }
}

/// The lines of a text from a position on. Nothing follows the last line feed.
pub open spec fn lines_from(s: Seq<char>, i: int) -> Seq<Seq<char>>
    decreases s.len() - i,
{
    if i < 0 || i >= s.len() {
        Seq::empty()
    } else {
        match find_from(s, '\n', i) {
            Some(e) => if i <= e < s.len() {
                seq![without_return(s.subrange(i, e))] + lines_from(s, e + 1)
            } else {
                Seq::empty()
            },
            None => seq![s.subrange(i, s.len() as int)],
        }
    }
}

/// The lines of a text.
pub fn lines_of(text: &str) -> (lines: Vec<String>)
    ensures
        texts(lines@) == lines_from(text@, 0),
{
    let chars = chars_of(text);
    let ghost s = chars@;
    let mut lines: Vec<String> = Vec::new();
    let mut i: usize = 0;
    assert(texts(lines@) + lines_from(s, 0) =~= lines_from(s, 0));
    while i < chars.len()
        invariant
            i <= chars.len(),
            s == chars@,
            s == text@,
            texts(lines@) + lines_from(s, i as int) == lines_from(s, 0),
        decreases chars.len() - i,
    {
        let ghost done = texts(lines@);
        proof {
            lemma_find_from(s, '\n', i as int);
        }
        match find_char(chars.as_slice(), '\n', i) {
            Some(e) => {
                let mut end = e;
                if e > i && chars[e - 1] == '\r' {
                    end = e - 1;
                }
                let line = substring_of(chars.as_slice(), i, end);
                proof {
                    let whole = s.subrange(i as int, e as int);
                    assert(without_return(whole) =~= s.subrange(i as int, end as int));
                }
                lines.push(line);
                assert(texts(lines@) =~= done.push(line@));
                assert(done.push(line@) + lines_from(s, e + 1) =~= done + (seq![line@]
                    + lines_from(s, e + 1)));
                i = e + 1;
            },
            None => {
                let line = substring_of(chars.as_slice(), i, chars.len());
                lines.push(line);
                assert(texts(lines@) =~= done + seq![line@]);
                return lines;
            },
        }
    }
    assert(texts(lines@) + lines_from(s, i as int) =~= texts(lines@));
    lines
}

// ----------------------------------------------------------------------- table
/// Where a text first stands in a list, from a position on.
pub open spec fn position_from(v: Seq<Seq<char>>, key: Seq<char>, i: int) -> Option<int>
    decreases v.len() - i,
{
    if i < 0 || i >= v.len() {
        None
    } else if v[i] == key {
        Some(i)
    } else {
        position_from(v, key, i + 1)
    }
}

fn position(v: &Vec<String>, key: &str) -> (r: Option<usize>)
    ensures
        match r {
            Some(i) => position_from(texts(v@), key@, 0) == Some(i as int) && i < v.len(),
            None => position_from(texts(v@), key@, 0) is None,
        },
{
    let mut i: usize = 0;
    while i < v.len()
        invariant
            i <= v.len(),
            position_from(texts(v@), key@, 0) == position_from(texts(v@), key@, i as int),
        decreases v.len() - i,
    {
        assert(texts(v@)[i as int] == v@[i as int]@);
        if str_eq(v[i].as_str(), key) {
            return Some(i);
        }
        i += 1;
    }
    None
}

/// The name that a line gives to a code, if it gives one.
pub open spec fn entry_of(line: Seq<char>, id_index: int, name_index: int) -> Option<
    (Seq<char>, Seq<char>),
> {
    let fields = csv_fields(line);
    if id_index < fields.len() && name_index < fields.len() && fields[id_index].len() > 0
        && fields[name_index].len() > 0 {
        Some((fields[id_index], fields[name_index]))
    } else {
        None
    }
}

/// The names that lines give to codes; of two for one code the last counts.
pub open spec fn entries_of(lines: Seq<Seq<char>>, id_index: int, name_index: int) -> Map<
    Seq<char>,
    Seq<char>,
>
    decreases lines.len(),
{
    if lines.len() == 0 {
        Map::empty()
    } else {
        let rest = entries_of(lines.drop_last(), id_index, name_index);
        match entry_of(lines.last(), id_index, name_index) {
            Some((id, name)) => rest.insert(id, name),
            None => rest,
        }
    }
}

/// The table that a text holds: its first line names the columns, of which `id` and `ext_name` are
/// needed.
pub open spec fn table_of(text: Seq<char>) -> Option<Map<Seq<char>, Seq<char>>> {
    let lines = lines_from(text, 0);
    if lines.len() == 0 {
        None
    } else {
        let header = csv_fields(lines[0]);
        match (position_from(header, "id"@, 0), position_from(header, "ext_name"@, 0)) {
            (Some(id_index), Some(name_index)) => Some(
                entries_of(lines.skip(1), id_index, name_index),
            ),
            _ => None,
        }
    }
}

/// The names of the first `n` prefixes of a code that have one, shortest first.
pub open spec fn path_upto(table: Map<Seq<char>, Seq<char>>, code: Seq<char>, n: int) -> Seq<
    Seq<char>,
>
    decreases n,
{
    if n <= 0 {
        Seq::empty()
    } else {
        let rest = path_upto(table, code, n - 1);
        if table.contains_key(code.take(n)) {
            rest.push(table[code.take(n)])
        } else {
            rest
        }
    }
}

/// The names of all prefixes of a code that have one, shortest first.
pub open spec fn division_path(table: Map<Seq<char>, Seq<char>>, code: Seq<char>) -> Seq<Seq<char>> {
    path_upto(table, code, code.len() as int)
}

/// The names of administrative divisions by their codes.
#[derive(Debug)]
pub struct DivisionTable {
    pub by_code: TextMap<String>,
}

impl Default for DivisionTable {
    fn default() -> (v: Self)
        ensures
            v@ == Map::<Seq<char>, Seq<char>>::empty(),
    {
        DivisionTable::new()
    }
}

impl DivisionTable {
    /// The table as a value.
    pub open spec fn view(&self) -> Map<Seq<char>, Seq<char>> {
        self.by_code@.map_values(|s: String| s@)
    }

    /// A table without names.
    pub fn new() -> (t: DivisionTable)
        ensures
            t@ == Map::<Seq<char>, Seq<char>>::empty(),
    {
        let t = DivisionTable { by_code: TextMap::new() };
        assert(t@ =~= Map::empty());
        t
    }

    /// Gives a name to a code.
    pub fn insert(&mut self, code: &str, name: &str)
        ensures
            final(self)@ == old(self)@.insert(code@, name@),
    {
        let ghost before = self@;
        let _ = self.by_code.insert(code.to_string(), name.to_string());
        assert(self@ =~= before.insert(code@, name@));
    }

    /// Reads a table from a text; `None` if it has no line of columns or a column is missing.
    pub fn load(text: &str) -> (r: Option<DivisionTable>)
        ensures
            match r {
                Some(t) => table_of(text@) == Some(t@),
                None => table_of(text@) is None,
            },
    {
        let lines = lines_of(text);
        let ghost all = texts(lines@);
        if lines.len() == 0 {
            return None;
        }
        assert(all[0] == lines@[0]@);
        let header = parse_csv_line(lines[0].as_str());
        let id_index = match position(&header, "id") {
            Some(i) => i,
            None => return None,
        };
        let name_index = match position(&header, "ext_name") {
            Some(i) => i,
            None => return None,
        };
        let ghost rest = all.skip(1);
        let mut table = DivisionTable::new();
        let mut i: usize = 1;
        assert(rest.take(0) =~= Seq::empty());
        while i < lines.len()
            invariant
                1 <= i <= lines.len(),
                all == texts(lines@),
                rest == all.skip(1),
                table@ == entries_of(rest.take(i - 1), id_index as int, name_index as int),
            decreases lines.len() - i,
        {
            let fields = parse_csv_line(lines[i].as_str());
            proof {
                assert(rest.take(i as int).drop_last() =~= rest.take(i - 1));
                assert(rest.take(i as int).last() == lines@[i as int]@);
                assert forall|k: int| 0 <= k < fields.len() implies texts(fields@)[k]
                    == #[trigger] fields@[k]@ by {}
            }
            if id_index < fields.len() && name_index < fields.len() {
                if fields[id_index].as_str().unicode_len() != 0
                    && fields[name_index].as_str().unicode_len() != 0 {
                    table.insert(fields[id_index].as_str(), fields[name_index].as_str());
                }
            }
            i += 1;
        }
        assert(rest.take(i - 1) =~= rest);
        Some(table)
    }

    /// The names of the prefixes of a code that have one, shortest first.
    pub fn lookup(&self, code: &str) -> (path: Vec<String>)
        ensures
            texts(path@) == division_path(self@, code@),
    {
        let chars = chars_of(code);
        let mut path: Vec<String> = Vec::new();
        let mut n: usize = 0;
        assert(texts(path@) =~= Seq::empty());
        while n < chars.len()
            invariant
                n <= chars.len(),
                chars@ == code@,
                texts(path@) == path_upto(self@, code@, n as int),
            decreases chars.len() - n,
        {
            let ghost done = texts(path@);
            n += 1;
            let prefix = substring_of(chars.as_slice(), 0, n);
            assert(prefix@ =~= code@.take(n as int));
            if let Some(name) = self.by_code.get(prefix.as_str()) {
                path.push(name.clone());
                assert(texts(path@) =~= done.push(name@));
            }
        }
        path
    }
}

/// A longer code leads through all the divisions of its prefixes.
pub proof fn prefix_leads_the_same_way(
    table: Map<Seq<char>, Seq<char>>,
    code: Seq<char>,
    n: int,
)
    requires
        0 <= n <= code.len(),
    ensures
        division_path(table, code.take(n)) == path_upto(table, code, n),
        division_path(table, code.take(n)).len() <= division_path(table, code).len(),
        division_path(table, code).take(division_path(table, code.take(n)).len() as int)
            == division_path(table, code.take(n)),
{
    lemma_path_of_prefix(table, code, n, n);
    lemma_path_grows(table, code, n, code.len() as int);
}

proof fn lemma_path_of_prefix(
    table: Map<Seq<char>, Seq<char>>,
    code: Seq<char>,
    n: int,
    k: int,
)
    requires
        0 <= k <= n <= code.len(),
    ensures
        path_upto(table, code.take(n), k) == path_upto(table, code, k),
    decreases k,
{
    if k > 0 {
        lemma_path_of_prefix(table, code, n, k - 1);
        assert(code.take(n).take(k) =~= code.take(k));
    }
}

proof fn lemma_path_grows(table: Map<Seq<char>, Seq<char>>, code: Seq<char>, a: int, b: int)
    requires
        0 <= a <= b,
    ensures
        path_upto(table, code, a).len() <= path_upto(table, code, b).len(),
        path_upto(table, code, b).take(path_upto(table, code, a).len() as int) == path_upto(
            table,
            code,
            a,
        ),
    decreases b - a,
{
    let pa = path_upto(table, code, a);
    if a == b {
        assert(pa.take(pa.len() as int) =~= pa);
    } else {
        lemma_path_grows(table, code, a, b - 1);
        let before = path_upto(table, code, b - 1);
        assert(path_upto(table, code, b).take(pa.len() as int) =~= before.take(pa.len() as int));
    }
}

// ----------------------------------------------------------------------- laws of tables
/// A text is read line by line; the carriage return before a line feed belongs to neither line.
pub proof fn texts_are_read_line_by_line(a: Seq<char>, b: Seq<char>)
    requires
        forall|i: int| 0 <= i < a.len() ==> #[trigger] a[i] != '\n',
        a.len() > 0 ==> a.last() != '\r',
    ensures
        lines_from(a + seq!['\n'] + b, 0) == seq![a] + lines_from(b, 0),
        lines_from(a + seq!['\r', '\n'] + b, 0) == seq![a] + lines_from(b, 0),
        a.len() > 0 ==> lines_from(a, 0) == seq![a],
        a.len() == 0 ==> lines_from(a, 0).len() == 0,
{
    let s = a + seq!['\n'] + b;
    let n = a.len() as int;
    assert(s[n] == '\n');
    assert forall|j: int| 0 <= j < n implies #[trigger] s[j] != '\n' by {
        assert(s[j] == a[j]);
    }
    lemma_found_at(s, 0, n);
    assert(s.subrange(0, n) =~= a);
    lemma_lines_moved(s, n + 1, b, 0);
    let t = a + seq!['\r', '\n'] + b;
    assert(t[n] == '\r' && t[n + 1] == '\n');
    assert forall|j: int| 0 <= j < n + 1 implies #[trigger] t[j] != '\n' by {
        if j < n {
            assert(t[j] == a[j]);
        }
    }
    lemma_found_at(t, 0, n + 1);
    assert(t.subrange(0, n + 1) =~= a.push('\r'));
    assert(a.push('\r').drop_last() =~= a);
    lemma_lines_moved(t, n + 2, b, 0);
    if a.len() > 0 {
        lemma_find_from(a, '\n', 0);
        assert(a.subrange(0, n) =~= a);
    }
}

proof fn lemma_found_at(s: Seq<char>, i: int, k: int)
    requires
        0 <= i <= k < s.len(),
        s[k] == '\n',
        forall|j: int| i <= j < k ==> #[trigger] s[j] != '\n',
    ensures
        find_from(s, '\n', i) == Some(k),
    decreases k - i,
{
    if i < k {
        lemma_found_at(s, i + 1, k);
    }
}

proof fn lemma_found_moved(s: Seq<char>, i: int, t: Seq<char>, j: int)
    requires
        0 <= i <= s.len(),
        0 <= j <= t.len(),
        s.len() - i == t.len() - j,
        forall|k: int| j <= k < t.len() ==> #[trigger] t[k] == s[k - j + i],
    ensures
        match (find_from(s, '\n', i), find_from(t, '\n', j)) {
            (Some(a), Some(b)) => a - i == b - j && j <= b < t.len(),
            (None, None) => true,
            _ => false,
        },
    decreases s.len() - i,
{
    if i < s.len() && s[i] != '\n' {
        assert(t[j] == s[i]);
        lemma_found_moved(s, i + 1, t, j + 1);
    } else if i < s.len() {
        assert(t[j] == s[i]);
    }
}

proof fn lemma_lines_moved(s: Seq<char>, i: int, t: Seq<char>, j: int)
    requires
        0 <= i <= s.len(),
        0 <= j <= t.len(),
        s.len() - i == t.len() - j,
        forall|k: int| j <= k < t.len() ==> #[trigger] t[k] == s[k - j + i],
    ensures
        lines_from(s, i) == lines_from(t, j),
    decreases s.len() - i,
{
    lemma_found_moved(s, i, t, j);
    if i < s.len() {
        if let Some(b) = find_from(t, '\n', j) {
            let a = b - j + i;
            assert(find_from(s, '\n', i) == Some(a));
            assert(s.subrange(i, a) =~= t.subrange(j, b));
            lemma_lines_moved(s, a + 1, t, b + 1);
        } else {
            assert(s.subrange(i, s.len() as int) =~= t.subrange(j, t.len() as int));
        }
    }
}

/// A column is the first with its name.
pub proof fn columns_are_found_by_name(v: Seq<Seq<char>>, key: Seq<char>, i: int)
    requires
        0 <= i,
    ensures
        match position_from(v, key, i) {
            Some(k) => i <= k < v.len() && v[k] == key && (forall|j: int|
                i <= j < k ==> #[trigger] v[j] != key),
            None => forall|j: int| i <= j < v.len() ==> #[trigger] v[j] != key,
        },
    decreases v.len() - i,
{
    if i < v.len() && v[i] != key {
        columns_are_found_by_name(v, key, i + 1);
    }
}

proof fn lemma_line_is_one(fields: Seq<Seq<char>>)
    requires
        forall|i: int, j: int|
            0 <= i < fields.len() && 0 <= j < fields[i].len() ==> #[trigger] fields[i][j] != '\n',
        fields.len() > 0,
    ensures
        forall|k: int| 0 <= k < csv_line(fields).len() ==> #[trigger] csv_line(fields)[k] != '\n',
        csv_line(fields).len() > 0,
        csv_line(fields).last() == '"',
    decreases fields.len(),
{
    lemma_doubled_is_one(fields[0]);
    let head = seq!['"'] + doubled(fields[0]) + seq!['"'];
    assert forall|k: int| 0 <= k < head.len() implies #[trigger] head[k] != '\n' by {
        if 0 < k < head.len() - 1 {
            assert(head[k] == doubled(fields[0])[k - 1]);
        }
    }
    if fields.len() > 1 {
        let rest = fields.skip(1);
        assert forall|i: int, j: int|
            0 <= i < rest.len() && 0 <= j < rest[i].len() implies #[trigger] rest[i][j] != '\n' by {
            assert(rest[i] == fields[i + 1]);
            assert(fields[i + 1][j] != '\n');
        }
        lemma_line_is_one(rest);
        let line = csv_line(fields);
        assert(line =~= head + seq![','] + csv_line(rest));
        assert forall|k: int| 0 <= k < line.len() implies #[trigger] line[k] != '\n' by {
            if k < head.len() {
                assert(line[k] == head[k]);
            } else if k > head.len() {
                assert(line[k] == csv_line(rest)[k - head.len() - 1]);
            }
        }
    } else {
        assert(csv_line(fields) =~= head);
    }
}

proof fn lemma_doubled_is_one(field: Seq<char>)
    requires
        forall|j: int| 0 <= j < field.len() ==> #[trigger] field[j] != '\n',
    ensures
        forall|k: int| 0 <= k < doubled(field).len() ==> #[trigger] doubled(field)[k] != '\n',
    decreases field.len(),
{
    if field.len() > 0 {
        let rest = field.skip(1);
        assert forall|j: int| 0 <= j < rest.len() implies #[trigger] rest[j] != '\n' by {
            assert(rest[j] == field[j + 1]);
        }
        lemma_doubled_is_one(rest);
        assert(field[0] != '\n');
        let head = if field[0] == '"' {
            seq!['"', '"']
        } else {
            seq![field[0]]
        };
        assert(doubled(field) == head + doubled(rest));
        assert forall|k: int| 0 <= k < doubled(field).len() implies #[trigger] doubled(field)[k]
            != '\n' by {
            if k >= head.len() {
                assert(doubled(field)[k] == doubled(rest)[k - head.len()]);
            }
        }
    }
}

/// A table of a header and a line gives the line's `ext_name` under its `id`, wherever the header has
/// the two columns.
pub proof fn tables_are_read_by_their_header(
    header: Seq<Seq<char>>,
    fields: Seq<Seq<char>>,
    id: int,
    name: int,
)
    requires
        forall|i: int, j: int|
            0 <= i < header.len() && 0 <= j < header[i].len() ==> #[trigger] header[i][j] != '\n',
        forall|i: int, j: int|
            0 <= i < fields.len() && 0 <= j < fields[i].len() ==> #[trigger] fields[i][j] != '\n',
        0 <= id < header.len(),
        0 <= name < header.len(),
        header.len() == fields.len(),
        header[id] == "id"@,
        header[name] == "ext_name"@,
        forall|i: int| 0 <= i < id ==> #[trigger] header[i] != "id"@,
        forall|i: int| 0 <= i < name ==> #[trigger] header[i] != "ext_name"@,
        fields[id].len() > 0,
        fields[name].len() > 0,
    ensures
        table_of(csv_line(header) + seq!['\n'] + csv_line(fields)) matches Some(table) && table
            == Map::<Seq<char>, Seq<char>>::empty().insert(fields[id], fields[name]),
{
    lemma_line_is_one(header);
    lemma_line_is_one(fields);
    let text = csv_line(header) + seq!['\n'] + csv_line(fields);
    texts_are_read_line_by_line(csv_line(header), csv_line(fields));
    texts_are_read_line_by_line(csv_line(fields), Seq::empty());
    quoted_fields_are_read_back(header);
    quoted_fields_are_read_back(fields);
    columns_are_found_by_name(header, "id"@, 0);
    columns_are_found_by_name(header, "ext_name"@, 0);
    let lines = lines_from(text, 0);
    assert(lines =~= seq![csv_line(header), csv_line(fields)]);
    let one = lines.skip(1);
    assert(one =~= seq![csv_line(fields)]);
    assert(one.drop_last() =~= Seq::<Seq<char>>::empty());
    assert(one.last() == csv_line(fields));
    assert(entries_of(one.drop_last(), id, name) =~= Map::<Seq<char>, Seq<char>>::empty());
}

/// The lines of a table are entered in their order, so that a later name of a code counts; a line
/// without a code or a name is left out.
pub proof fn later_lines_count(lines: Seq<Seq<char>>, fields: Seq<Seq<char>>, id: int, name: int)
    requires
        fields.len() > 0,
        0 <= id,
        0 <= name,
    ensures
        id < fields.len() && name < fields.len() && fields[id].len() > 0 && fields[name].len() > 0
            ==> entries_of(lines.push(csv_line(fields)), id, name) == entries_of(
            lines,
            id,
            name,
        ).insert(fields[id], fields[name]),
        id >= fields.len() || name >= fields.len() || fields[id].len() == 0 || fields[name].len()
            == 0 ==> entries_of(lines.push(csv_line(fields)), id, name) == entries_of(
            lines,
            id,
            name,
        ),
{
    quoted_fields_are_read_back(fields);
    assert(lines.push(csv_line(fields)).drop_last() =~= lines);
}

/// The way to a division is the way to what its code continues, and its own name at the end where it
/// has one.
pub proof fn way_ends_with_the_division(table: Map<Seq<char>, Seq<char>>, code: Seq<char>, c: char)
    ensures
        division_path(table, code.push(c)) == division_path(table, code) + (if table.contains_key(
            code.push(c),
        ) {
            seq![table[code.push(c)]]
        } else {
            Seq::empty()
        }),
        division_path(table, Seq::empty()).len() == 0,
{
    let longer = code.push(c);
    let n = code.len() as int;
    prefix_leads_the_same_way(table, longer, n);
    assert(longer.take(n) =~= code);
    assert(longer.take(n + 1) =~= longer);
}

} // verus!
