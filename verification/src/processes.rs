//! Reading the process listing that `frida-ps -a` prints.
//!
//! The listing is a header line followed by one row per process: the pid,
//! then the process name, which may hold spaces.
use crate::models::{opt_process, processes_view, Process, ProcessView};
use crate::text::{
    char_rows, chars_of, decimal, is_ws, join_words, join_words_from, law_decimal_roundtrip,
    lemma_decimal_digits, lemma_digits_solid, lemma_lines_acc_line, lemma_words_acc_solid, lemma_words_acc_then_solid,
    lemma_words_non_empty, lines, lines_acc, parse_u32, parse_u32_exec, strip_cr, words,
    words_acc, words_of,
};
use vstd::prelude::*;
use vstd::utf8::{decode_utf8, valid_utf8};

verus! {

/// The process a listing row describes: the row's first word is the pid and
/// the remaining words, joined by single spaces, are its name (which also
/// serves as its package).  Rows of fewer than two words, or whose first
/// word is not a `u32`, describe none.
pub open spec fn process_row(line: Seq<char>) -> Option<ProcessView> {
    let w = words(line);
    if w.len() >= 2 && parse_u32(w[0]) is Some {
        let name = join_words(w.skip(1));
        Some(ProcessView { pid: parse_u32(w[0]).unwrap(), name: name, package: Some(name) })
    } else {
        None
    }
}

/// The processes that the rows `ls` describe, in order.
pub open spec fn rows_of(ls: Seq<Seq<char>>) -> Seq<ProcessView>
    decreases ls.len(),
{
    if ls.len() == 0 {
        Seq::empty()
    } else {
        let r = rows_of(ls.drop_last());
        match process_row(ls.last()) {
            Some(p) => r.push(p),
            None => r,
        }
    }
}

/// The processes a listing names: the rows after the header line.
pub open spec fn listed_processes(listing: Seq<char>) -> Seq<ProcessView> {
    let ls = lines(listing);
    if ls.len() == 0 {
        Seq::empty()
    } else {
        rows_of(ls.skip(1))
    }
}

/// The process one listing row describes, if any.
pub fn process_row_exec(line: &[char]) -> (r: Option<Process>)
    ensures
        opt_process(r) == process_row(line@),
{
    let ws = words_of(line);
    if ws.len() < 2 {
        return None;
    }
    assert(char_rows(ws@)[0] == ws@[0]@);
    match parse_u32_exec(ws[0].as_slice()) {
        Some(pid) => {
            let name = join_words_from(&ws, 1);
            Some(Process { pid, name: name.clone(), package: Some(name) })
        },
        None => None,
    }
}

/// Adds the process of row `line` to `procs`, if the row describes one.
fn add_row(procs: &mut Vec<Process>, line: &[char])
    ensures
        processes_view(final(procs)@) == match process_row(line@) {
            Some(p) => processes_view(old(procs)@).push(p),
            None => processes_view(old(procs)@),
        },
{
    match process_row_exec(line) {
        Some(p) => {
            let ghost before = procs@;
            procs.push(p);
            assert(processes_view(procs@) =~= processes_view(before).push(procs@.last()@));
        },
        None => {},
    }
}

/// The processes a `frida-ps` listing names, in order.
pub fn parse_process_list(listing: &str) -> (r: Vec<Process>)
    ensures
        processes_view(r@) == listed_processes(listing@),
{
    let cs = chars_of(listing);
    let n = cs.len();
    let mut procs: Vec<Process> = Vec::new();
    let mut line: Vec<char> = Vec::new();
    let mut seen_header = false;
    let ghost mut done: Seq<Seq<char>> = Seq::empty();
    let mut k: usize = 0;
    assert(cs@.take(0) =~= Seq::<char>::empty());
    while k < n
        invariant
            n == cs@.len(),
            k <= n,
            lines_acc(cs@.take(k as int)) == (done, line@),
            seen_header == (done.len() > 0),
            done.len() == 0 ==> procs@.len() == 0,
            done.len() > 0 ==> processes_view(procs@) == rows_of(done.skip(1)),
        decreases n - k,
    {
        let c = cs[k];
        assert(cs@.take(k + 1).drop_last() =~= cs@.take(k as int));
        assert(cs@.take(k + 1).last() == c);
        if c == '\n' {
            let ghost cur = line@;
            if line.len() > 0 && line[line.len() - 1] == '\r' {
                line.pop();
            }
            let ghost l = line@;
            assert(l == strip_cr(cur));
            if seen_header {
                let ghost before = procs@;
                add_row(&mut procs, line.as_slice());
                assert(done.push(l).skip(1) =~= done.skip(1).push(l));
                assert(done.skip(1).push(l).drop_last() =~= done.skip(1));
                assert(rows_of(done.push(l).skip(1)) == match process_row(l) {
                    Some(p) => rows_of(done.skip(1)).push(p),
                    None => rows_of(done.skip(1)),
                });
            } else {
                assert(done.push(l).skip(1) =~= Seq::<Seq<char>>::empty());
            }
            seen_header = true;
            proof {
                done = done.push(l);
            }
            line = Vec::new();
        } else {
            line.push(c);
        }
        k = k + 1;
    }
    assert(cs@.take(n as int) =~= cs@);
    if line.len() > 0 {
        let ghost l = line@;
        if seen_header {
            add_row(&mut procs, line.as_slice());
            assert(done.push(l).skip(1) =~= done.skip(1).push(l));
            assert(done.skip(1).push(l).drop_last() =~= done.skip(1));
            assert(rows_of(done.push(l).skip(1)) == match process_row(l) {
                Some(p) => rows_of(done.skip(1)).push(p),
                None => rows_of(done.skip(1)),
            });
        } else {
            assert(done.push(l).skip(1) =~= Seq::<Seq<char>>::empty());
        }
        assert(lines(listing@) == done.push(l));
    } else {
        assert(lines(listing@) == done);
    }
    procs
}

/// The text that `String::from_utf8_lossy` makes of some bytes, with each
/// malformed sequence replaced by U+FFFD.
pub uninterp spec fn utf8_lossy(bytes: Seq<u8>) -> Seq<char>;

/// `String::from_utf8_lossy`.  Claimed, as its documentation says: valid
/// UTF-8 is decoded as it is; how malformed input is replaced is left to
/// the name `utf8_lossy`.
#[verifier::external_body]
fn lossy_text(bytes: &[u8]) -> (r: String)
    ensures
        r@ == utf8_lossy(bytes@),
        valid_utf8(bytes@) ==> r@ == decode_utf8(bytes@),
{
    String::from_utf8_lossy(bytes).into_owned()
}

/// `String::from_utf8`: the decoded text exactly when the bytes are valid
/// UTF-8, as its documentation says.
#[verifier::external_body]
fn utf8_text(bytes: &[u8]) -> (r: Option<String>)
    ensures
        r is Some <==> valid_utf8(bytes@),
        r matches Some(s) ==> s@ == decode_utf8(bytes@),
{
    String::from_utf8(bytes.to_vec()).ok()
}

/// The text that `encoding_rs::GBK.decode` makes of some bytes (with BOM
/// sniffing and malformed sequences replaced).
pub uninterp spec fn gbk_text(bytes: Seq<u8>) -> Seq<char>;

/// `encoding_rs::GBK.decode`, keeping the decoded text.  Claimed: the text is
/// a function of the bytes alone, named `gbk_text`.  The decoder sizes its
/// output buffer at about three bytes per input byte and panics where that
/// size overflows, which the bound on the length rules out.
#[verifier::external_body]
fn gbk_decode(bytes: &[u8]) -> (r: String)
    requires
        bytes@.len() * 4 <= isize::MAX,
    ensures
        r@ == gbk_text(bytes@),
{
    encoding_rs::GBK.decode(bytes).0.into_owned()
}

/// The text of `frida-ps` output: on Windows UTF-8 when it is valid and GBK
/// (the console code page of Chinese Windows) otherwise; elsewhere UTF-8 with
/// malformed sequences replaced.
pub open spec fn ps_output_text(bytes: Seq<u8>, windows: bool) -> Seq<char> {
    if windows {
        if valid_utf8(bytes) {
            decode_utf8(bytes)
        } else {
            gbk_text(bytes)
        }
    } else {
        utf8_lossy(bytes)
    }
}

/// Decodes the standard output of `frida-ps`.
pub fn decode_ps_output(bytes: &[u8], windows: bool) -> (r: String)
    requires
        windows ==> bytes@.len() * 4 <= isize::MAX,
    ensures
        r@ == ps_output_text(bytes@, windows),
{
    if windows {
        match utf8_text(bytes) {
            Some(s) => s,
            None => gbk_decode(bytes),
        }
    } else {
        lossy_text(bytes)
    }
}

/// The outcome of a `frida-ps` run: its error output when it failed, else the
/// processes its listing names, or an error when it names none.
pub open spec fn ps_outcome(success: bool, stdout: Seq<u8>, stderr: Seq<u8>, windows: bool) -> Result<
    Seq<ProcessView>,
    Seq<char>,
> {
    if !success {
        Err("frida-ps failed: "@ + utf8_lossy(stderr))
    } else {
        let ps = listed_processes(ps_output_text(stdout, windows));
        if ps.len() == 0 {
            Err("No processes found. Make sure frida-server is running."@)
        } else {
            Ok(ps)
        }
    }
}

/// How a `frida-ps` run is read.  Its output is decoded as the platform
/// asks: on Windows valid UTF-8 as UTF-8 and anything else as GBK,
/// elsewhere as UTF-8 with malformed sequences replaced.  A run that failed
/// reports its error output; one that succeeded lists exactly the processes
/// that the text decoded for the same platform names, and is an error only
/// where that text names none.
pub proof fn law_ps_output_reading(success: bool, stdout: Seq<u8>, stderr: Seq<u8>, windows: bool)
    ensures
        windows && valid_utf8(stdout) ==> ps_output_text(stdout, windows) == decode_utf8(stdout),
        windows && !valid_utf8(stdout) ==> ps_output_text(stdout, windows) == gbk_text(stdout),
        !windows ==> ps_output_text(stdout, windows) == utf8_lossy(stdout),
        !success ==> ps_outcome(success, stdout, stderr, windows) == Err::<Seq<ProcessView>, Seq<char>>(
            "frida-ps failed: "@ + utf8_lossy(stderr),
        ),
        success && listed_processes(ps_output_text(stdout, windows)).len() > 0 ==> ps_outcome(
            success,
            stdout,
            stderr,
            windows,
        ) == Ok::<Seq<ProcessView>, Seq<char>>(listed_processes(ps_output_text(stdout, windows))),
        success && windows && !valid_utf8(stdout) && listed_processes(gbk_text(stdout)).len() > 0
            ==> ps_outcome(success, stdout, stderr, windows) == Ok::<Seq<ProcessView>, Seq<char>>(
            listed_processes(gbk_text(stdout)),
        ),
        ps_outcome(success, stdout, stderr, windows) is Err <==> (!success || listed_processes(
            ps_output_text(stdout, windows),
        ).len() == 0),
{
}

/// Reads the result of a `frida-ps -a` run: whether it succeeded and what it
/// wrote to standard output and standard error.
pub fn process_ps_output(success: bool, stdout: &[u8], stderr: &[u8], windows: bool) -> (r: Result<
    Vec<Process>,
    String,
>)
    requires
        windows ==> stdout@.len() * 4 <= isize::MAX,
    ensures
        match (r, ps_outcome(success, stdout@, stderr@, windows)) {
            (Ok(v), Ok(ps)) => processes_view(v@) == ps,
            (Err(m), Err(t)) => m@ == t,
            _ => false,
        },
{
    if !success {
        let mut m = String::from_str("frida-ps failed: ");
        let e = lossy_text(stderr);
        m.append(e.as_str());
        return Err(m);
    }
    let text = decode_ps_output(stdout, windows);
    let procs = parse_process_list(text.as_str());
    if procs.len() == 0 {
        Err(String::from_str("No processes found. Make sure frida-server is running."))
    } else {
        Ok(procs)
    }
}

/// A row that names process `pid` with a name without whitespace, as
/// `frida-ps` prints it, reads back as that process.
pub proof fn law_listing_row_roundtrip(pid: u32, name: Seq<char>)
    requires
        name.len() > 0,
        forall|i: int| 0 <= i < name.len() ==> !is_ws(#[trigger] name[i]),
    ensures
        process_row(decimal(pid as nat) + seq![' '] + name) == Some(
            ProcessView { pid: pid, name: name, package: Some(name) },
        ),
{
    let d = decimal(pid as nat);
    lemma_decimal_digits(pid as nat);
    law_decimal_roundtrip(pid);
    lemma_digits_solid(d);
    lemma_words_acc_solid(d);
    let ds = d + seq![' '];
    assert(ds.drop_last() =~= d);
    assert(is_ws(ds.last()));
    assert(words_acc(ds) == (seq![d], Seq::<char>::empty()));
    lemma_words_acc_then_solid(ds, name);
    let line = d + seq![' '] + name;
    assert(words(line) == seq![d, name]);
    assert(seq![d, name].skip(1) =~= seq![name]);
}

/// Every process a listing names has its name as its package, and a name
/// that is not empty.
pub proof fn law_listed_process_shape(listing: Seq<char>)
    ensures
        forall|i: int|
            0 <= i < listed_processes(listing).len() ==> {
                let p = #[trigger] listed_processes(listing)[i];
                p.package == Some(p.name) && p.name.len() > 0
            },
{
    let ls = lines(listing);
    if ls.len() > 0 {
        lemma_rows_shape(ls.skip(1));
    }
}

/// The process a row describes has its name as its package and a name that
/// is not empty.
proof fn lemma_row_shape(line: Seq<char>)
    ensures
        process_row(line) matches Some(p) ==> p.package == Some(p.name) && p.name.len() > 0,
{
    let w = words(line);
    if w.len() >= 2 {
        lemma_words_non_empty(line);
        let rest = w.skip(1);
        if rest.len() == 1 {
            assert(rest[0] == w[1]);
        }
    }
}

proof fn lemma_rows_shape(ls: Seq<Seq<char>>)
    ensures
        forall|i: int|
            0 <= i < rows_of(ls).len() ==> {
                let p = #[trigger] rows_of(ls)[i];
                p.package == Some(p.name) && p.name.len() > 0
            },
    decreases ls.len(),
{
    if ls.len() > 0 {
        lemma_rows_shape(ls.drop_last());
        lemma_row_shape(ls.last());
    }
}

/// The row `frida-ps` prints for a process: its pid, a space and its name.
pub open spec fn listing_row(p: ProcessView) -> Seq<char> {
    decimal(p.pid as nat) + seq![' '] + p.name
}

/// The rows for a list of processes, each ended by a line feed.
pub open spec fn listing_rows(ps: Seq<ProcessView>) -> Seq<char>
    decreases ps.len(),
{
    if ps.len() == 0 {
        Seq::empty()
    } else {
        listing_rows(ps.drop_last()) + listing_row(ps.last()) + seq!['\n']
    }
}

/// A process as a listing can name it: a name without whitespace, which is
/// also its package.
pub open spec fn listable(p: ProcessView) -> bool {
    &&& p.name.len() > 0
    &&& forall|i: int| 0 <= i < p.name.len() ==> !is_ws(#[trigger] p.name[i])
    &&& p.package == Some(p.name)
}

/// A listing read back gives the processes it was printed from: a header
/// line followed by one row per process, for processes whose names hold no
/// whitespace.
pub proof fn law_listing_roundtrip(header: Seq<char>, ps: Seq<ProcessView>)
    requires
        forall|i: int| 0 <= i < header.len() ==> #[trigger] header[i] != '\n',
        forall|i: int| 0 <= i < ps.len() ==> listable(#[trigger] ps[i]),
    ensures
        listed_processes(header + seq!['\n'] + listing_rows(ps)) == ps,
{
    let head = header + seq!['\n'];
    assert(lines_acc(Seq::<char>::empty()) == (Seq::<Seq<char>>::empty(), Seq::<char>::empty()));
    lemma_lines_acc_line(Seq::<char>::empty(), header);
    assert(Seq::<char>::empty() + header + seq!['\n'] =~= head);
    lemma_listing_lines(head, ps);
    let ls = lines(head + listing_rows(ps));
    assert(ls == seq![strip_cr(header)] + ps.map_values(|p: ProcessView| listing_row(p)));
    assert(ls.skip(1) =~= ps.map_values(|p: ProcessView| listing_row(p)));
    lemma_rows_of_listing(ps);
}

/// The lines of a finished header followed by the rows of `ps`.
proof fn lemma_listing_lines(head: Seq<char>, ps: Seq<ProcessView>)
    requires
        lines_acc(head).1.len() == 0,
        forall|i: int| 0 <= i < ps.len() ==> listable(#[trigger] ps[i]),
    ensures
        lines_acc(head + listing_rows(ps)) == (lines_acc(head).0 + ps.map_values(
            |p: ProcessView| listing_row(p),
        ), Seq::<char>::empty()),
        lines(head + listing_rows(ps)) == lines_acc(head).0 + ps.map_values(
            |p: ProcessView| listing_row(p),
        ),
    decreases ps.len(),
{
    if ps.len() == 0 {
        assert(head + listing_rows(ps) =~= head);
        assert(lines_acc(head).0 + ps.map_values(|p: ProcessView| listing_row(p)) =~= lines_acc(
            head,
        ).0);
    } else {
        let init = ps.drop_last();
        assert forall|i: int| 0 <= i < init.len() implies listable(#[trigger] init[i]) by {
            assert(init[i] == ps[i]);
        }
        lemma_listing_lines(head, init);
        let p = ps.last();
        assert(listable(ps[ps.len() - 1]));
        let row = listing_row(p);
        lemma_row_has_no_line_feed(p);
        lemma_lines_acc_line(head + listing_rows(init), row);
        assert(head + listing_rows(ps) =~= head + listing_rows(init) + row + seq!['\n']);
        lemma_row_ends_solid(p);
        assert(lines_acc(head).0 + ps.map_values(|q: ProcessView| listing_row(q)) =~= (lines_acc(
            head,
        ).0 + init.map_values(|q: ProcessView| listing_row(q))).push(row));
    }
}

/// A row holds no line feed.
proof fn lemma_row_has_no_line_feed(p: ProcessView)
    requires
        listable(p),
    ensures
        forall|i: int| 0 <= i < listing_row(p).len() ==> #[trigger] listing_row(p)[i] != '\n',
{
    let d = decimal(p.pid as nat);
    lemma_decimal_digits(p.pid as nat);
    lemma_digits_solid(d);
    let row = listing_row(p);
    assert forall|i: int| 0 <= i < row.len() implies #[trigger] row[i] != '\n' by {
        if i < d.len() {
            assert(row[i] == d[i]);
            assert(!is_ws(d[i]));
        } else if i > d.len() {
            assert(row[i] == p.name[i - d.len() - 1]);
            assert(!is_ws(p.name[i - d.len() - 1]));
        }
    }
}

/// A row does not end in a carriage return.
proof fn lemma_row_ends_solid(p: ProcessView)
    requires
        listable(p),
    ensures
        strip_cr(listing_row(p)) == listing_row(p),
{
    let row = listing_row(p);
    assert(row.last() == p.name[p.name.len() - 1]);
    assert(!is_ws(p.name[p.name.len() - 1]));
}

/// The rows of `ps` describe exactly `ps`.
proof fn lemma_rows_of_listing(ps: Seq<ProcessView>)
    requires
        forall|i: int| 0 <= i < ps.len() ==> listable(#[trigger] ps[i]),
    ensures
        rows_of(ps.map_values(|p: ProcessView| listing_row(p))) == ps,
    decreases ps.len(),
{
    if ps.len() > 0 {
        let init = ps.drop_last();
        assert forall|i: int| 0 <= i < init.len() implies listable(#[trigger] init[i]) by {
            assert(init[i] == ps[i]);
        }
        lemma_rows_of_listing(init);
        let rows = ps.map_values(|p: ProcessView| listing_row(p));
        assert(rows.drop_last() =~= init.map_values(|p: ProcessView| listing_row(p)));
        let p = ps.last();
        assert(listable(ps[ps.len() - 1]));
        law_listing_row_roundtrip(p.pid, p.name);
        assert(rows.last() == listing_row(p));
        assert(init.push(p) =~= ps);
    }
}

} // verus!
