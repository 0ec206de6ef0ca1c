use vstd::prelude::*;

use vstd::string::*;

verus! {

/// Where the backup reads from and writes to, and which tables it takes.
pub struct Config {
    pub database_uri: String,
    pub backup_directory: String,
    pub database_tables: Vec<String>,
}

/// Unicode's White_Space characters, those that `char::is_whitespace` accepts.
pub open spec fn is_white_space(c: char) -> bool {
    let u = c as u32;
    (0x9 <= u && u <= 0xd) || u == 0x20 || u == 0x85 || u == 0xa0 || u == 0x1680 || (0x2000 <= u && u
        <= 0x200a) || u == 0x2028 || u == 0x2029 || u == 0x202f || u == 0x205f || u == 0x3000
}

/// Whether a character is white space.
pub fn white_space(c: char) -> (r: bool)
    ensures
        r == is_white_space(c),
{
    let u = c as u32;
    (0x9 <= u && u <= 0xd) || u == 0x20 || u == 0x85 || u == 0xa0 || u == 0x1680 || (0x2000 <= u && u
        <= 0x200a) || u == 0x2028 || u == 0x2029 || u == 0x202f || u == 0x205f || u == 0x3000
}

pub open spec fn trim_start(p: Seq<char>) -> Seq<char>
    decreases p.len(),
{
    if p.len() > 0 && is_white_space(p[0]) {
        trim_start(p.drop_first())
    } else {
        p
    }
}

pub open spec fn trim_end(p: Seq<char>) -> Seq<char>
    decreases p.len(),
{
    if p.len() > 0 && is_white_space(p.last()) {
        trim_end(p.drop_last())
    } else {
        p
    }
}

/// A text without white space at either end.
pub open spec fn trim(p: Seq<char>) -> Seq<char> {
    trim_end(trim_start(p))
}

/// The pieces of a text between semicolons; a text without one is one piece.
pub open spec fn split_semicolons(s: Seq<char>) -> Seq<Seq<char>>
    decreases s.len(),
{
    if s.len() == 0 {
        seq![Seq::<char>::empty()]
    } else {
        let init = split_semicolons(s.drop_last());
        if s.last() == ';' {
            init.push(Seq::<char>::empty())
        } else {
            init.update(init.len() - 1, init.last().push(s.last()))
        }
    }
}

/// The trimmed pieces that are not empty, in order.
pub open spec fn table_names(pieces: Seq<Seq<char>>) -> Seq<Seq<char>>
    decreases pieces.len(),
{
    if pieces.len() == 0 {
        seq![]
    } else {
        let rest = table_names(pieces.drop_last());
        let t = trim(pieces.last());
        if t.len() > 0 {
            rest.push(t)
        } else {
            rest
        }
    }
}

/// The table names of a semicolon-separated list.
pub open spec fn table_list(s: Seq<char>) -> Seq<Seq<char>> {
    table_names(split_semicolons(s))
}

/// The message for a missing configuration variable.
pub open spec fn missing_message(key: Seq<char>) -> Seq<char> {
    "Environment variable "@ + key + " is required."@
}

pub open spec fn views(v: Seq<String>) -> Seq<Seq<char>> {
    v.map_values(|t: String| t@)
}

proof fn lemma_split_nonempty(s: Seq<char>)
    ensures
        split_semicolons(s).len() >= 1,
    decreases s.len(),
{
    if s.len() > 0 {
        lemma_split_nonempty(s.drop_last());
    }
}

/// A text without white space at either end.
pub fn trimmed(piece: &str) -> (r: String)
    ensures
        r@ == trim(piece@),
{
    let n = piece.unicode_len();
    let ghost p = piece@;
    let mut lo: usize = 0;
    assert(p.subrange(0, n as int) =~= p);
    while lo < n && white_space(piece.get_char(lo))
        invariant
            n == p.len(),
            p == piece@,
            0 <= lo <= n,
            trim_start(p) == trim_start(p.subrange(lo as int, n as int)),
        decreases n - lo,
    {
        assert(p.subrange(lo as int, n as int).drop_first() =~= p.subrange(lo + 1, n as int));
        lo = lo + 1;
    }
    assert(trim_start(p) == p.subrange(lo as int, n as int));
    let mut hi: usize = n;
    while hi > lo && white_space(piece.get_char(hi - 1))
        invariant
            n == p.len(),
            p == piece@,
            0 <= lo <= hi <= n,
            trim(p) == trim_end(p.subrange(lo as int, hi as int)),
        decreases hi - lo,
    {
        assert(p.subrange(lo as int, hi as int).drop_last() =~= p.subrange(lo as int, hi - 1));
        hi = hi - 1;
    }
    assert(trim(p) == p.subrange(lo as int, hi as int));
    String::from_str(piece.substring_char(lo, hi))
}

/// The table names of a semicolon-separated list: each piece trimmed, empty
/// pieces dropped.
pub fn parse_tables(list: &str) -> (r: Vec<String>)
    ensures
        views(r@) == table_list(list@),
{
    let n = list.unicode_len();
    let ghost s = list@;
    let mut r: Vec<String> = Vec::new();
    let mut start: usize = 0;
    let mut i: usize = 0;
    proof {
        assert(s.take(0) =~= Seq::<char>::empty());
        assert(views(r@) =~= table_names(split_semicolons(s.take(0)).drop_last()));
    }
    while i < n
        invariant
            n == s.len(),
            s == list@,
            0 <= start <= i <= n,
            split_semicolons(s.take(i as int)).len() >= 1,
            split_semicolons(s.take(i as int)).last() == s.subrange(start as int, i as int),
            views(r@) == table_names(split_semicolons(s.take(i as int)).drop_last()),
        decreases n - i,
    {
        let c = list.get_char(i);
        let ghost before = split_semicolons(s.take(i as int));
        assert(s.take(i + 1).drop_last() =~= s.take(i as int));
        assert(s.take(i + 1).last() == c);
        if c == ';' {
            let piece = list.substring_char(start, i);
            let t = trimmed(piece);
            let ghost old_r = r@;
            if t.unicode_len() > 0 {
                r.push(t);
                assert(views(r@) =~= views(old_r).push(t@));
            }
            proof {
                let after = split_semicolons(s.take(i + 1));
                assert(after == before.push(Seq::<char>::empty()));
                assert(after.drop_last() =~= before);
                assert(before.drop_last() =~= before.drop_last());
            }
            start = i + 1;
        } else {
            proof {
                let after = split_semicolons(s.take(i + 1));
                assert(after.drop_last() =~= before.drop_last());
                assert(after.last() =~= s.subrange(start as int, i + 1));
            }
        }
        i = i + 1;
        proof {
            lemma_split_nonempty(s.take(i as int));
        }
    }
    assert(s.take(n as int) =~= s);
    let piece = list.substring_char(start, n);
    let t = trimmed(piece);
    let ghost old_r = r@;
    if t.unicode_len() > 0 {
        r.push(t);
        assert(views(r@) =~= views(old_r).push(t@));
    }
    r
}

/// The message for a missing configuration variable.
fn missing(key: &str) -> (r: String)
    ensures
        r@ == missing_message(key@),
{
    let mut m = String::from_str("Environment variable ");
    m.append(key);
    m.append(" is required.");
    m
}

impl Config {
    /// A configuration from the values found for `database_uri`,
    /// `backup_directory` and `database_tables`; the first one missing, in
    /// that order, is named in the error.
    pub fn build(database_uri: Option<String>, backup_directory: Option<String>, database_tables: Option<
        String,
    >) -> (r: Result<Config, String>)
        ensures
            database_uri is None ==> r is Err && r->Err_0@ == missing_message("database_uri"@),
            database_uri is Some && backup_directory is None ==> r is Err && r->Err_0@
                == missing_message("backup_directory"@),
            database_uri is Some && backup_directory is Some && database_tables is None ==> r is Err
                && r->Err_0@ == missing_message("database_tables"@),
            database_uri is Some && backup_directory is Some && database_tables is Some ==> {
                let c = r->Ok_0;
                &&& r is Ok
                &&& c.database_uri@ == database_uri->Some_0@
                &&& c.backup_directory@ == backup_directory->Some_0@
                &&& views(c.database_tables@) == table_list(database_tables->Some_0@)
            },
    {
        let database_uri = match database_uri {
            Some(v) => v,
            None => {
                return Err(missing("database_uri"));
            },
        };
        let backup_directory = match backup_directory {
            Some(v) => v,
            None => {
                return Err(missing("backup_directory"));
            },
        };
        let tables = match database_tables {
            Some(v) => v,
            None => {
                return Err(missing("database_tables"));
            },
        };
        let database_tables = parse_tables(tables.as_str());
        Ok(Config { database_uri, backup_directory, database_tables })
    }

    /// The address of the source database.
    pub fn get_uri(&self) -> (r: &String)
        ensures
            r@ == self.database_uri@,
    {
        &self.database_uri
    }
}

} // verus!
