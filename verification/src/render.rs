//! Rendering of listing results as fixed-width text tables. The name
//! column's width is the maximum of the header width 5 and the longest name
//! in the result set; a separator rule spans the full row width; a
//! last-saved timestamp that fails to parse is surfaced as an inline error
//! line and rendered as the epoch instead, so rendering always completes.
use vstd::prelude::*;

use crate::data::{FileRecord, SecretKey};
use crate::text::{
    bool_seq, bool_string, dash_seq, make_dashes, pad_left, pad_left_spec, pad_right,
    pad_right_spec, dec_str, u32_dec,
};
use crate::timefmt::{
    format_short_time, parse_rfc3339_secs, rfc3339_parse_of, rfc3339_secs_of, short_time_of,
};

verus! {

/// The name-column width for a set of names: the maximum of 5 and the
/// longest name.
pub open spec fn width_from(names: Seq<Seq<char>>) -> nat
    decreases names.len(),
{
    if names.len() == 0 {
        5
    } else {
        let w = width_from(names.drop_last());
        if names.last().len() > w {
            names.last().len()
        } else {
            w
        }
    }
}

/// The names of a secret listing, in listing order.
pub open spec fn key_names(es: Seq<SecretKey>) -> Seq<Seq<char>> {
    es.map_values(|e: SecretKey| e.name@)
}

/// The names of a file listing, in listing order.
pub open spec fn file_names(fs: Seq<FileRecord>) -> Seq<Seq<char>> {
    fs.map_values(|f: FileRecord| f.filename@)
}

/// The column width is exactly the maximum of 5 and the longest name:
/// it is at least 5, at least every name's length, and is 5 or one of the
/// name lengths.
pub proof fn lemma_width_is_max(names: Seq<Seq<char>>)
    ensures
        width_from(names) >= 5,
        forall|i: int| 0 <= i < names.len() ==> width_from(names) >= #[trigger] names[i].len(),
        width_from(names) == 5 || exists|i: int|
            0 <= i < names.len() && width_from(names) == names[i].len(),
    decreases names.len(),
{
    if names.len() > 0 {
        let d = names.drop_last();
        lemma_width_is_max(d);
        assert forall|i: int| 0 <= i < names.len() implies width_from(names)
            >= #[trigger] names[i].len() by {
            if i < names.len() - 1 {
                assert(names[i] == d[i]);
            }
        }
        if width_from(names) == names.last().len() {
            assert(names[names.len() - 1] == names.last());
        } else {
            assert(width_from(names) == width_from(d));
            if width_from(d) != 5 {
                let j = choose|j: int| 0 <= j < d.len() && width_from(d) == d[j].len();
                assert(names[j] == d[j]);
            }
        }
    }
}

/// One row of the secret table: the name padded to the column width, the
/// short-format time right-aligned in 14 columns, and the link flag.
pub open spec fn key_row_spec(name: Seq<char>, secs: i64, link: bool, w: nat) -> Seq<char> {
    pad_right_spec(name, w) + seq![' '] + pad_left_spec(short_time_of(secs), 14) + seq![' ']
        + bool_seq(link)
}

/// The secret-table header over a name column of width `w`.
pub open spec fn keys_header_spec(w: nat) -> Seq<char> {
    pad_right_spec("Name"@, w) + seq![' '] + pad_left_spec("Creation Time"@, 14) + seq![' ']
        + pad_left_spec("Link"@, 5)
}

/// One row of the file table: name, short-format creation time, chunk
/// count right-aligned in 3, size right-aligned in 8, stream flag
/// right-aligned in 6, and the version.
pub open spec fn file_row_spec(f: FileRecord, w: nat) -> Seq<char> {
    pad_right_spec(f.filename@, w) + seq![' '] + short_time_of(f.created_at) + seq![' ']
        + pad_left_spec(dec_str(f.num_chunks as nat), 3) + seq![' '] + pad_left_spec(f.size@, 8)
        + seq![' '] + pad_left_spec(bool_seq(f.stream_available), 6) + seq![' ']
        + dec_str(f.version as nat)
}

/// The file-table header over a name column of width `w`.
pub open spec fn files_header_spec(w: nat) -> Seq<char> {
    pad_right_spec("Name"@, w) + "  Creation Time Chk     Size Stream V"@
}

/// The inline line that surfaces a failure to parse the last-saved time
/// `t`: a fixed prefix followed by the text of the parse error, which is
/// itself a function of `t` alone, so rendering equal inputs gives equal
/// lines.
pub open spec fn time_error_line_spec(t: Seq<char>) -> Seq<char> {
    "Error finding time: "@ + rfc3339_parse_of(t)->Err_0
}

/// The output lines one secret entry contributes: its row alone when its
/// last-saved time parses; an inline error line followed by its row at the
/// epoch when it does not.
pub open spec fn entry_lines_ok(e: SecretKey, w: nat, nl: Seq<String>) -> bool {
    match rfc3339_secs_of(e.last_saved_time@) {
        Some(t) => nl.len() == 1 && nl[0]@ == key_row_spec(e.name@, t, e.is_link, w),
        None => nl.len() == 2 && nl[0]@ == time_error_line_spec(e.last_saved_time@) && nl[1]@
            == key_row_spec(e.name@, 0, e.is_link, w),
    }
}

/// `ls` is exactly the concatenation, in listing order, of the lines each
/// entry of `es` contributes.
pub open spec fn keys_body_ok(es: Seq<SecretKey>, w: nat, ls: Seq<String>) -> bool
    decreases es.len(),
{
    if es.len() == 0 {
        ls.len() == 0
    } else {
        match rfc3339_secs_of(es[0].last_saved_time@) {
            Some(_) => ls.len() >= 1 && entry_lines_ok(es[0], w, ls.take(1)) && keys_body_ok(
                es.drop_first(),
                w,
                ls.skip(1),
            ),
            None => ls.len() >= 2 && entry_lines_ok(es[0], w, ls.take(2)) && keys_body_ok(
                es.drop_first(),
                w,
                ls.skip(2),
            ),
        }
    }
}

proof fn lemma_keys_body_push(es: Seq<SecretKey>, w: nat, ls: Seq<String>, e: SecretKey, nl: Seq<String>)
    requires
        keys_body_ok(es, w, ls),
        entry_lines_ok(e, w, nl),
    ensures
        keys_body_ok(es.push(e), w, ls + nl),
    decreases es.len(),
{
    let es2 = es.push(e);
    let ls2 = ls + nl;
    if es.len() == 0 {
        assert(ls.len() == 0);
        assert(ls2 =~= nl);
        assert(es2[0] == e);
        assert(es2.drop_first() =~= Seq::<SecretKey>::empty());
        assert(keys_body_ok(Seq::<SecretKey>::empty(), w, Seq::<String>::empty()));
        match rfc3339_secs_of(e.last_saved_time@) {
            Some(_) => {
                assert(ls2.take(1) =~= nl);
                assert(ls2.skip(1) =~= Seq::<String>::empty());
                assert(keys_body_ok(es2.drop_first(), w, ls2.skip(1)));
            },
            None => {
                assert(ls2.take(2) =~= nl);
                assert(ls2.skip(2) =~= Seq::<String>::empty());
                assert(keys_body_ok(es2.drop_first(), w, ls2.skip(2)));
            },
        }
        assert(keys_body_ok(es2, w, ls2));
    } else {
        assert(es2[0] == es[0]);
        assert(es2.drop_first() =~= es.drop_first().push(e));
        match rfc3339_secs_of(es[0].last_saved_time@) {
            Some(_) => {
                lemma_keys_body_push(es.drop_first(), w, ls.skip(1), e, nl);
                assert(ls2.take(1) =~= ls.take(1));
                assert(ls2.skip(1) =~= ls.skip(1) + nl);
                assert(keys_body_ok(es2.drop_first(), w, ls2.skip(1)));
            },
            None => {
                lemma_keys_body_push(es.drop_first(), w, ls.skip(2), e, nl);
                assert(ls2.take(2) =~= ls.take(2));
                assert(ls2.skip(2) =~= ls.skip(2) + nl);
                assert(keys_body_ok(es2.drop_first(), w, ls2.skip(2)));
            },
        }
        assert(keys_body_ok(es2, w, ls2));
    }
}

/// Rendering is deterministic in its input: when every last-saved time
/// parses, the table body is exactly one row per entry, in listing order.
pub proof fn lemma_keys_body_exact(es: Seq<SecretKey>, w: nat, ls: Seq<String>)
    requires
        keys_body_ok(es, w, ls),
        forall|i: int| 0 <= i < es.len() ==> (#[trigger] rfc3339_secs_of(
            es[i].last_saved_time@,
        )) is Some,
    ensures
        ls.len() == es.len(),
        forall|i: int| 0 <= i < es.len() ==> ls[i]@ == key_row_spec(
            #[trigger] es[i].name@,
            rfc3339_secs_of(es[i].last_saved_time@)->0,
            es[i].is_link,
            w,
        ),
    decreases es.len(),
{
    if es.len() > 0 {
        let d = es.drop_first();
        assert(forall|i: int| 0 <= i < d.len() ==> d[i] == es[i + 1]);
        lemma_keys_body_exact(d, w, ls.skip(1));
        assert forall|i: int| 0 <= i < es.len() implies ls[i]@ == key_row_spec(
            #[trigger] es[i].name@,
            rfc3339_secs_of(es[i].last_saved_time@)->0,
            es[i].is_link,
            w,
        ) by {
            if i == 0 {
                assert(ls.take(1)[0] == ls[0]);
            } else {
                assert(d[i - 1] == es[i]);
                assert(ls.skip(1)[i - 1] == ls[i]);
            }
        }
    }
}

/// The name-column width for a secret listing.
pub fn keys_width(entries: &Vec<SecretKey>) -> (w: usize)
    ensures
        w as nat == width_from(key_names(entries@)),
{
    let ghost names = key_names(entries@);
    let mut w: usize = 5;
    let mut i: usize = 0;
    proof {
        assert(names.take(0) =~= Seq::<Seq<char>>::empty());
    }
    while i < entries.len()
        invariant
            0 <= i <= entries@.len(),
            names == key_names(entries@),
            w as nat == width_from(names.take(i as int)),
        decreases entries@.len() - i,
    {
        let l = entries[i].name.as_str().unicode_len();
        proof {
            assert(names.take(i + 1).drop_last() =~= names.take(i as int));
            assert(names.take(i + 1).last() == names[i as int]);
            assert(names[i as int] == entries@[i as int].name@);
        }
        if l > w {
            w = l;
        }
        i = i + 1;
    }
    proof {
        assert(names.take(entries@.len() as int) =~= names);
    }
    w
}

/// The name-column width for a file listing.
pub fn files_width(files: &Vec<FileRecord>) -> (w: usize)
    ensures
        w as nat == width_from(file_names(files@)),
{
    let ghost names = file_names(files@);
    let mut w: usize = 5;
    let mut i: usize = 0;
    proof {
        assert(names.take(0) =~= Seq::<Seq<char>>::empty());
    }
    while i < files.len()
        invariant
            0 <= i <= files@.len(),
            names == file_names(files@),
            w as nat == width_from(names.take(i as int)),
        decreases files@.len() - i,
    {
        let l = files[i].filename.as_str().unicode_len();
        proof {
            assert(names.take(i + 1).drop_last() =~= names.take(i as int));
            assert(names.take(i + 1).last() == names[i as int]);
            assert(names[i as int] == files@[i as int].filename@);
        }
        if l > w {
            w = l;
        }
        i = i + 1;
    }
    proof {
        assert(names.take(files@.len() as int) =~= names);
    }
    w
}

fn keys_header(w: usize) -> (r: String)
    ensures
        r@ == keys_header_spec(w as nat),
{
    let mut r = pad_right("Name", w);
    r.append(" ");
    let ct = pad_left("Creation Time", 14);
    r.append(ct.as_str());
    r.append(" ");
    let lk = pad_left("Link", 5);
    r.append(lk.as_str());
    proof {
        reveal_strlit(" ");
        assert(r@ =~= keys_header_spec(w as nat));
    }
    r
}

fn key_row(name: &str, secs: i64, link: bool, w: usize) -> (r: String)
    ensures
        r@ == key_row_spec(name@, secs, link, w as nat),
{
    let mut r = pad_right(name, w);
    r.append(" ");
    let t = format_short_time(secs);
    let tp = pad_left(t.as_str(), 14);
    r.append(tp.as_str());
    r.append(" ");
    let b = bool_string(link);
    r.append(b.as_str());
    proof {
        reveal_strlit(" ");
        assert(r@ =~= key_row_spec(name@, secs, link, w as nat));
    }
    r
}

/// Render a secret listing: a header and separator over the computed
/// column width, then the lines each entry contributes in listing order.
pub fn render_keys(entries: &Vec<SecretKey>) -> (lines: Vec<String>)
    requires
        forall|i: int| 0 <= i < entries@.len() ==> #[trigger] entries@[i].name@.len()
            <= usize::MAX - 21,
    ensures
        ({
            let w = width_from(key_names(entries@));
            &&& lines@.len() >= 2
            &&& lines@[0]@ == keys_header_spec(w)
            &&& lines@[1]@ == dash_seq((w + 21) as nat)
            &&& keys_body_ok(entries@, w, lines@.skip(2))
        }),
{
    let ghost names = key_names(entries@);
    let w = keys_width(entries);
    proof {
        lemma_width_is_max(names);
        if width_from(names) != 5 {
            let j = choose|j: int| 0 <= j < names.len() && width_from(names) == names[j].len();
            assert(names[j] == entries@[j].name@);
        }
    }
    let mut lines: Vec<String> = Vec::new();
    lines.push(keys_header(w));
    lines.push(make_dashes(w + 21));
    proof {
        assert(lines@.skip(2) =~= Seq::<String>::empty());
        assert(entries@.take(0) =~= Seq::<SecretKey>::empty());
    }
    let mut i: usize = 0;
    while i < entries.len()
        invariant
            0 <= i <= entries@.len(),
            names == key_names(entries@),
            w as nat == width_from(names),
            lines@.len() >= 2,
            lines@[0]@ == keys_header_spec(w as nat),
            lines@[1]@ == dash_seq((w as nat + 21) as nat),
            keys_body_ok(entries@.take(i as int), w as nat, lines@.skip(2)),
        decreases entries@.len() - i,
    {
        let ghost pre = lines@;
        let ghost e = entries@[i as int];
        match parse_rfc3339_secs(entries[i].last_saved_time.as_str()) {
            Ok(t) => {
                let row = key_row(entries[i].name.as_str(), t, entries[i].is_link, w);
                let ghost nl = seq![row];
                lines.push(row);
                proof {
                    assert(entry_lines_ok(e, w as nat, nl));
                    lemma_keys_body_push(entries@.take(i as int), w as nat, pre.skip(2), e, nl);
                    assert(entries@.take(i + 1) =~= entries@.take(i as int).push(e));
                    assert(lines@.skip(2) =~= pre.skip(2) + nl);
                }
            },
            Err(msg) => {
                let mut el = String::from_str("Error finding time: ");
                el.append(msg.as_str());
                let row = key_row(entries[i].name.as_str(), 0, entries[i].is_link, w);
                let ghost nl = seq![el, row];
                lines.push(el);
                lines.push(row);
                proof {
                    assert(entry_lines_ok(e, w as nat, nl));
                    lemma_keys_body_push(entries@.take(i as int), w as nat, pre.skip(2), e, nl);
                    assert(entries@.take(i + 1) =~= entries@.take(i as int).push(e));
                    assert(lines@.skip(2) =~= pre.skip(2) + nl);
                }
            },
        }
        i = i + 1;
    }
    proof {
        assert(entries@.take(entries@.len() as int) =~= entries@);
    }
    lines
}

fn files_header(w: usize) -> (r: String)
    ensures
        r@ == files_header_spec(w as nat),
{
    let r = pad_right("Name", w);
    r.concat("  Creation Time Chk     Size Stream V")
}

fn file_row(f: &FileRecord, w: usize) -> (r: String)
    ensures
        r@ == file_row_spec(*f, w as nat),
{
    let mut r = pad_right(f.filename.as_str(), w);
    r.append(" ");
    let t = format_short_time(f.created_at);
    r.append(t.as_str());
    r.append(" ");
    let ck = u32_dec(f.num_chunks);
    let ckp = pad_left(ck.as_str(), 3);
    r.append(ckp.as_str());
    r.append(" ");
    let szp = pad_left(f.size.as_str(), 8);
    r.append(szp.as_str());
    r.append(" ");
    let st = bool_string(f.stream_available);
    let stp = pad_left(st.as_str(), 6);
    r.append(stp.as_str());
    r.append(" ");
    let v = u32_dec(f.version);
    r.append(v.as_str());
    proof {
        reveal_strlit(" ");
        assert(r@ =~= file_row_spec(*f, w as nat));
    }
    r
}

/// Render a file listing: the literal line `No files found` when it is
/// empty, otherwise a header and separator over the computed column width
/// followed by one row per file in listing order.
pub fn render_files(files: &Vec<FileRecord>) -> (lines: Vec<String>)
    requires
        forall|i: int| 0 <= i < files@.len() ==> #[trigger] files@[i].filename@.len()
            <= usize::MAX - 37,
    ensures
        ({
            let w = width_from(file_names(files@));
            &&& files@.len() == 0 ==> lines@.len() == 1 && lines@[0]@ == "No files found"@
            &&& files@.len() > 0 ==> {
                &&& lines@.len() == 2 + files@.len()
                &&& lines@[0]@ == files_header_spec(w)
                &&& lines@[1]@ == dash_seq((w + 37) as nat)
                &&& forall|i: int| 0 <= i < files@.len() ==> lines@[2 + i]@ == file_row_spec(
                    #[trigger] files@[i],
                    w,
                )
            }
        }),
{
    let ghost names = file_names(files@);
    let mut lines: Vec<String> = Vec::new();
    if files.len() == 0 {
        lines.push(String::from_str("No files found"));
        return lines;
    }
    let w = files_width(files);
    proof {
        lemma_width_is_max(names);
        if width_from(names) != 5 {
            let j = choose|j: int| 0 <= j < names.len() && width_from(names) == names[j].len();
            assert(names[j] == files@[j].filename@);
        }
    }
    lines.push(files_header(w));
    lines.push(make_dashes(w + 37));
    let mut i: usize = 0;
    while i < files.len()
        invariant
            0 <= i <= files@.len(),
            names == file_names(files@),
            w as nat == width_from(names),
            lines@.len() == 2 + i,
            lines@[0]@ == files_header_spec(w as nat),
            lines@[1]@ == dash_seq((w as nat + 37) as nat),
            forall|j: int| 0 <= j < i ==> lines@[2 + j]@ == file_row_spec(
                #[trigger] files@[j],
                w as nat,
            ),
        decreases files@.len() - i,
    {
        let row = file_row(&files[i], w);
        lines.push(row);
        i = i + 1;
    }
    lines
}

} // verus!
