//! The migration scripts of the login database: which files of the
//! migrations directory run, and the statements that a script holds.
use vstd::prelude::*;
use crate::text::{
    is_whitespace, lemma_trim_idempotent, trim_end, trim_start,
    chars_of, ends_with, ends_with_chars, lemma_text_le_first_difference, lemma_text_le_total, lemma_text_le_transitive, text_le,
    text_le_chars, push_all, starts_with, starts_with_chars, string_from_chars, trim,
    trim_chars, trim_end_char, trim_end_char_chars,
};

verus! {

/// The pieces of `s` between its newline characters.
///
/// A script's lines, as `str::lines` cuts them, differ from these pieces
/// only by a final empty piece and by a carriage return at the end of a
/// piece; both vanish when a line is trimmed, so the kept lines agree.
pub open spec fn split_lines(s: Seq<char>) -> Seq<Seq<char>>
    decreases s.len(),
{
    if s.len() == 0 {
        seq![Seq::<char>::empty()]
    } else {
        let before = split_lines(s.drop_last());
        if s.last() == '\n' {
            before.push(Seq::<char>::empty())
        } else {
            before.update(before.len() - 1, before.last().push(s.last()))
        }
    }
}

/// The marker that opens a comment line of a script.
pub open spec fn comment_marker() -> Seq<char> {
    seq!['-', '-']
}

/// A trimmed line that takes part in a statement: it is not blank and not a
/// comment.
pub open spec fn is_statement_line(t: Seq<char>) -> bool {
    t.len() > 0 && !starts_with(t, comment_marker())
}

/// The trimmed lines of a script that take part in statements, in order.
pub open spec fn kept_lines(lines: Seq<Seq<char>>) -> Seq<Seq<char>>
    decreases lines.len(),
{
    if lines.len() == 0 {
        Seq::empty()
    } else {
        let before = kept_lines(lines.drop_last());
        let t = trim(lines.last());
        if is_statement_line(t) {
            before.push(t)
        } else {
            before
        }
    }
}

/// The statements that `lines` close, given the text `pending` that earlier
/// lines left open. Each line is appended with a following space; a line
/// that ends in `;` closes the statement, which is kept, trimmed, when it
/// is not empty. Text left open at the end forms a last statement.
pub open spec fn statements_from(lines: Seq<Seq<char>>, pending: Seq<char>) -> Seq<Seq<char>>
    decreases lines.len(),
{
    if lines.len() == 0 {
        if trim(pending).len() > 0 {
            seq![trim(pending)]
        } else {
            Seq::empty()
        }
    } else {
        let line = lines[0];
        let joined = pending + line + seq![' '];
        if ends_with(line, seq![';']) {
            let statement = trim(trim_end_char(joined, ';'));
            let first = if statement.len() > 0 {
                seq![statement]
            } else {
                Seq::empty()
            };
            first + statements_from(lines.drop_first(), Seq::empty())
        } else {
            statements_from(lines.drop_first(), joined)
        }
    }
}

/// The text that `lines` leave open, not yet closed by a `;`, given the text
/// `pending` that earlier lines left open.
pub open spec fn open_text(lines: Seq<Seq<char>>, pending: Seq<char>) -> Seq<char>
    decreases lines.len(),
{
    if lines.len() == 0 {
        pending
    } else {
        let line = lines[0];
        if ends_with(line, seq![';']) {
            open_text(lines.drop_first(), Seq::empty())
        } else {
            open_text(lines.drop_first(), pending + line + seq![' '])
        }
    }
}

/// The statements of a migration script, in the order they run.
pub open spec fn script_statements(content: Seq<char>) -> Seq<Seq<char>> {
    statements_from(kept_lines(split_lines(content)), Seq::empty())
}

/// Every statement a script runs is a nonempty text that neither begins
/// nor ends with whitespace.
pub proof fn lemma_statements_trimmed(lines: Seq<Seq<char>>, pending: Seq<char>)
    ensures
        forall|k: int|
            0 <= k < statements_from(lines, pending).len() ==> {
                let st = #[trigger] statements_from(lines, pending)[k];
                st.len() > 0 && trim(st) == st
            },
    decreases lines.len(),
{
    if lines.len() == 0 {
        lemma_trim_idempotent(pending);
        if trim(pending).len() > 0 {
            assert(statements_from(lines, pending) == seq![trim(pending)]);
        } else {
            assert(statements_from(lines, pending) == Seq::<Seq<char>>::empty());
        }
    } else {
        let line = lines[0];
        let joined = pending + line + seq![' '];
        if ends_with(line, seq![';']) {
            let statement = trim(trim_end_char(joined, ';'));
            lemma_trim_idempotent(trim_end_char(joined, ';'));
            lemma_statements_trimmed(lines.drop_first(), Seq::empty());
            let first = if statement.len() > 0 {
                seq![statement]
            } else {
                Seq::<Seq<char>>::empty()
            };
            let rest = statements_from(lines.drop_first(), Seq::empty());
            assert(statements_from(lines, pending) == first + rest);
            assert forall|k: int| 0 <= k < (first + rest).len() implies ({
                let st = #[trigger] (first + rest)[k];
                st.len() > 0 && trim(st) == st
            }) by {
                if k >= first.len() {
                    assert((first + rest)[k] == rest[k - first.len()]);
                }
            }
        } else {
            lemma_statements_trimmed(lines.drop_first(), joined);
            assert(statements_from(lines, pending) == statements_from(lines.drop_first(), joined));
        }
    }
}

/// The statements of any script are nonempty and trimmed.
pub proof fn lemma_script_statements_trimmed(content: Seq<char>)
    ensures
        forall|k: int|
            0 <= k < script_statements(content).len() ==> {
                let st = #[trigger] script_statements(content)[k];
                st.len() > 0 && trim(st) == st
            },
{
    lemma_statements_trimmed(kept_lines(split_lines(content)), Seq::empty());
}

/// Every text has at least one line.
proof fn lemma_split_lines_nonempty(s: Seq<char>)
    ensures
        split_lines(s).len() >= 1,
    decreases s.len(),
{
    if s.len() > 0 {
        lemma_split_lines_nonempty(s.drop_last());
    }
}

/// The lines of two texts joined by a newline are the lines of the first
/// followed by those of the second.
proof fn lemma_split_lines_join(a: Seq<char>, b: Seq<char>)
    ensures
        split_lines(a.push('\n') + b) == split_lines(a) + split_lines(b),
    decreases b.len(),
{
    let s = a.push('\n') + b;
    if b.len() == 0 {
        assert(s =~= a.push('\n'));
        assert(a.push('\n').drop_last() =~= a);
        assert(split_lines(a) + split_lines(b) =~= split_lines(a).push(Seq::<char>::empty()));
    } else {
        lemma_split_lines_join(a, b.drop_last());
        assert(s.drop_last() =~= a.push('\n') + b.drop_last());
        assert(s.last() == b.last());
        let la = split_lines(a);
        let x = split_lines(b.drop_last());
        lemma_split_lines_nonempty(b.drop_last());
        if b.last() == '\n' {
            assert((la + x).push(Seq::<char>::empty()) =~= la + x.push(Seq::<char>::empty()));
        } else {
            let c = b.last();
            assert((la + x).last() == x.last());
            assert((la + x).update((la + x).len() - 1, x.last().push(c)) =~= la + x.update(
                x.len() - 1,
                x.last().push(c),
            ));
        }
    }
}

/// The kept lines of two runs of lines are those of the first followed by
/// those of the second.
proof fn lemma_kept_lines_join(x: Seq<Seq<char>>, y: Seq<Seq<char>>)
    ensures
        kept_lines(x + y) == kept_lines(x) + kept_lines(y),
    decreases y.len(),
{
    if y.len() == 0 {
        assert(x + y =~= x);
        assert(kept_lines(x) + kept_lines(y) =~= kept_lines(x));
    } else {
        lemma_kept_lines_join(x, y.drop_last());
        assert((x + y).drop_last() =~= x + y.drop_last());
        assert((x + y).last() == y.last());
        let t = trim(y.last());
        if is_statement_line(t) {
            assert((kept_lines(x) + kept_lines(y.drop_last())).push(t) =~= kept_lines(x) + kept_lines(
                y.drop_last(),
            ).push(t));
        }
    }
}

/// A blank line or a comment line changes none of the statements of the
/// script around it.
pub proof fn lemma_comment_line_changes_nothing(a: Seq<char>, line: Seq<char>, b: Seq<char>)
    requires
        forall|i: int| 0 <= i < line.len() ==> line[i] != '\n',
        !is_statement_line(trim(line)),
    ensures
        script_statements(a.push('\n') + (line.push('\n') + b)) == script_statements(
            a.push('\n') + b,
        ),
{
    lemma_split_lines_join(a, line.push('\n') + b);
    lemma_split_lines_join(line, b);
    lemma_split_lines_join(a, b);
    lemma_split_lines_single(line);
    let la = split_lines(a);
    let lb = split_lines(b);
    lemma_kept_lines_join(la, seq![line] + lb);
    lemma_kept_lines_join(seq![line], lb);
    lemma_kept_lines_join(la, lb);
    assert(seq![line].drop_last() =~= Seq::<Seq<char>>::empty());
    assert(kept_lines(seq![line]) == kept_lines(Seq::<Seq<char>>::empty()));
    assert(kept_lines(Seq::<Seq<char>>::empty()) + kept_lines(lb) =~= kept_lines(lb));
}

/// Lines that leave nothing open close their statements on their own: the
/// lines after them start afresh.
proof fn lemma_statements_join(x: Seq<Seq<char>>, y: Seq<Seq<char>>, pending: Seq<char>)
    requires
        open_text(x, pending) == Seq::<char>::empty(),
    ensures
        statements_from(x + y, pending) == statements_from(x, pending) + statements_from(
            y,
            Seq::empty(),
        ),
    decreases x.len(),
{
    if x.len() == 0 {
        assert(x + y =~= y);
        assert(trim_start(Seq::<char>::empty()) == Seq::<char>::empty());
        assert(trim(Seq::<char>::empty()) == Seq::<char>::empty());
        assert(statements_from(x, pending) == Seq::<Seq<char>>::empty());
        assert(statements_from(x, pending) + statements_from(y, Seq::empty()) =~= statements_from(
            y,
            Seq::empty(),
        ));
    } else {
        let line = x[0];
        let joined = pending + line + seq![' '];
        assert((x + y)[0] == line);
        assert((x + y).drop_first() =~= x.drop_first() + y);
        if ends_with(line, seq![';']) {
            lemma_statements_join(x.drop_first(), y, Seq::empty());
            let statement = trim(trim_end_char(joined, ';'));
            let first = if statement.len() > 0 {
                seq![statement]
            } else {
                Seq::<Seq<char>>::empty()
            };
            let a = statements_from(x.drop_first(), Seq::empty());
            let b = statements_from(y, Seq::empty());
            assert(first + (a + b) =~= (first + a) + b);
        } else {
            lemma_statements_join(x.drop_first(), y, joined);
        }
    }
}

/// The text a script leaves open at its end, not closed by a `;`.
pub open spec fn script_open_text(content: Seq<char>) -> Seq<char> {
    open_text(kept_lines(split_lines(content)), Seq::empty())
}

/// A script that leaves no statement open, followed on a new line by a
/// second script, runs the statements of the first and then those of the
/// second.
pub proof fn lemma_scripts_join(a: Seq<char>, b: Seq<char>)
    requires
        script_open_text(a) == Seq::<char>::empty(),
    ensures
        script_statements(a.push('\n') + b) == script_statements(a) + script_statements(b),
{
    lemma_split_lines_join(a, b);
    let ka = kept_lines(split_lines(a));
    let kb = kept_lines(split_lines(b));
    lemma_kept_lines_join(split_lines(a), split_lines(b));
    lemma_statements_join(ka, kb, Seq::empty());
}

/// A text without newline is a single line.
proof fn lemma_split_lines_single(s: Seq<char>)
    requires
        forall|i: int| 0 <= i < s.len() ==> s[i] != '\n',
    ensures
        split_lines(s) == seq![s],
    decreases s.len(),
{
    if s.len() == 0 {
        assert(s =~= Seq::<char>::empty());
    } else {
        lemma_split_lines_single(s.drop_last());
        assert(s.drop_last().push(s.last()) =~= s);
        assert(seq![s.drop_last()].update(0, s) =~= seq![s]);
    }
}

/// A nonempty trimmed text followed by a space trims back to itself.
proof fn lemma_trim_padded(t: Seq<char>)
    requires
        t.len() > 0,
        trim(t) == t,
    ensures
        trim(t.push(' ')) == t,
{
    lemma_trim_idempotent(t);
    assert(!is_whitespace(t[0]));
    assert(t.push(' ')[0] == t[0]);
    assert(trim_start(t.push(' ')) == t.push(' '));
    assert(t.push(' ').drop_last() =~= t);
    assert(is_whitespace(' '));
    assert(trim_end(t.push(' ')) == trim_end(t));
    assert(trim_start(t) == t);
}

/// A newline at the end of a script changes none of its statements: the
/// last line of a script counts whether or not a newline ends it.
pub proof fn lemma_trailing_newline_changes_nothing(content: Seq<char>)
    ensures
        script_statements(content.push('\n')) == script_statements(content),
{
    let s = content.push('\n');
    assert(s.drop_last() =~= content);
    assert(s.last() == '\n');
    let lines = split_lines(content);
    assert(split_lines(s) == lines.push(Seq::<char>::empty()));
    assert(lines.push(Seq::<char>::empty()).drop_last() =~= lines);
    assert(trim_start(Seq::<char>::empty()) == Seq::<char>::empty());
    assert(trim(Seq::<char>::empty()) == Seq::<char>::empty());
    assert(kept_lines(lines.push(Seq::<char>::empty())) == kept_lines(lines));
}

/// A script of one line, with no newline, that is neither blank nor a
/// comment runs that line, trimmed, as its one statement, whether or not
/// the line ends in `;`.
pub proof fn lemma_single_line_script(content: Seq<char>)
    requires
        forall|i: int| 0 <= i < content.len() ==> content[i] != '\n',
        is_statement_line(trim(content)),
    ensures
        script_statements(content) == seq![trim(content)],
{
    let t = trim(content);
    lemma_split_lines_single(content);
    lemma_trim_idempotent(content);
    let one = seq![content];
    assert(one.drop_last() =~= Seq::<Seq<char>>::empty());
    assert(one.last() == content);
    assert(kept_lines(Seq::<Seq<char>>::empty()) == Seq::<Seq<char>>::empty());
    assert(kept_lines(one) == Seq::<Seq<char>>::empty().push(t));
    let kept = seq![t];
    assert(kept_lines(one) =~= kept);
    let joined = Seq::<char>::empty() + t + seq![' '];
    assert(joined =~= t.push(' '));
    lemma_trim_padded(t);
    assert(kept.drop_first() =~= Seq::<Seq<char>>::empty());
    if ends_with(t, seq![';']) {
        assert(joined.last() == ' ');
        assert(trim_end_char(joined, ';') == joined);
        assert(trim_start(Seq::<char>::empty()) == Seq::<char>::empty());
        assert(trim(Seq::<char>::empty()) == Seq::<char>::empty());
        assert(statements_from(Seq::<Seq<char>>::empty(), Seq::empty()) == Seq::<Seq<char>>::empty());
        assert(kept[0] == t);
        assert(statements_from(kept, Seq::empty()) =~= seq![t] + Seq::<Seq<char>>::empty());
    } else {
        assert(statements_from(kept, Seq::empty()) == statements_from(
            Seq::<Seq<char>>::empty(),
            joined,
        ));
    }
}

/// Two nonempty trimmed texts joined by a space trim back to the same.
proof fn lemma_trim_spaced(x: Seq<char>, y: Seq<char>)
    requires
        x.len() > 0,
        y.len() > 0,
        trim(x) == x,
        trim(y) == y,
    ensures
        trim(x + seq![' '] + y) == x + seq![' '] + y,
{
    lemma_trim_idempotent(x);
    lemma_trim_idempotent(y);
    let t = x + seq![' '] + y;
    assert(t[0] == x[0]);
    assert(t.last() == y.last());
    assert(trim_start(t) == t);
    assert(trim_end(t) == t);
}

/// A statement written over two lines runs as one statement: the two
/// lines, trimmed, joined by a space, whether or not the second line ends
/// in `;`.
pub proof fn lemma_two_line_statement(first: Seq<char>, second: Seq<char>)
    requires
        forall|i: int| 0 <= i < first.len() ==> first[i] != '\n',
        forall|i: int| 0 <= i < second.len() ==> second[i] != '\n',
        is_statement_line(trim(first)),
        is_statement_line(trim(second)),
        !ends_with(trim(first), seq![';']),
    ensures
        script_statements(first.push('\n') + second) == seq![
            trim(first) + seq![' '] + trim(second),
        ],
{
    let x = trim(first);
    let y = trim(second);
    lemma_split_lines_join(first, second);
    lemma_split_lines_single(first);
    lemma_split_lines_single(second);
    lemma_kept_lines_join(seq![first], seq![second]);
    assert(seq![first].drop_last() =~= Seq::<Seq<char>>::empty());
    assert(seq![second].drop_last() =~= Seq::<Seq<char>>::empty());
    assert(kept_lines(Seq::<Seq<char>>::empty()) == Seq::<Seq<char>>::empty());
    assert(kept_lines(seq![first]) =~= seq![x]);
    assert(kept_lines(seq![second]) =~= seq![y]);
    let kept = seq![x, y];
    assert(seq![first] + seq![second] =~= seq![first, second]);
    assert(seq![x] + seq![y] =~= kept);
    lemma_trim_idempotent(first);
    lemma_trim_idempotent(second);
    let j1 = Seq::<char>::empty() + x + seq![' '];
    assert(kept[0] == x);
    assert(kept.drop_first() =~= seq![y]);
    assert(statements_from(kept, Seq::empty()) == statements_from(seq![y], j1));
    let j2 = j1 + y + seq![' '];
    let t = x + seq![' '] + y;
    assert(j2 =~= t.push(' '));
    lemma_trim_spaced(x, y);
    lemma_trim_padded(t);
    assert(seq![y][0] == y);
    assert(seq![y].drop_first() =~= Seq::<Seq<char>>::empty());
    assert(trim_start(Seq::<char>::empty()) == Seq::<char>::empty());
    assert(trim(Seq::<char>::empty()) == Seq::<char>::empty());
    assert(statements_from(Seq::<Seq<char>>::empty(), Seq::empty()) == Seq::<Seq<char>>::empty());
    if ends_with(y, seq![';']) {
        assert(j2.last() == ' ');
        assert(trim_end_char(j2, ';') == j2);
        assert(statements_from(seq![y], j1) =~= seq![t] + Seq::<Seq<char>>::empty());
    } else {
        assert(statements_from(seq![y], j1) == statements_from(Seq::<Seq<char>>::empty(), j2));
    }
}

/// Whitespace added at the end of a text vanishes when it is trimmed.
proof fn lemma_trim_push_whitespace(l: Seq<char>, w: Seq<char>)
    requires
        w.len() == 1,
        is_whitespace(w[0]),
    ensures
        trim(l + w) == trim(l),
    decreases l.len(),
{
    let s = l + w;
    if l.len() == 0 {
        assert(s =~= w);
        assert(s.drop_first() =~= Seq::<char>::empty());
        assert(trim_start(s) == trim_start(Seq::<char>::empty()));
    } else if is_whitespace(l[0]) {
        lemma_trim_push_whitespace(l.drop_first(), w);
        assert(s.drop_first() =~= l.drop_first() + w);
        assert(s[0] == l[0]);
    } else {
        assert(s[0] == l[0]);
        assert(trim_start(s) == s);
        assert(trim_start(l) == l);
        assert(s.drop_last() =~= l);
        assert(trim_end(s) == trim_end(l));
    }
}

/// A carriage return before a newline changes none of the statements of a
/// script: lines ended by `\r\n` count as lines ended by `\n`.
pub proof fn lemma_carriage_return_changes_nothing(a: Seq<char>, b: Seq<char>)
    ensures
        script_statements(a.push('\r').push('\n') + b) == script_statements(a.push('\n') + b),
{
    let ar = a.push('\r');
    lemma_split_lines_join(ar, b);
    lemma_split_lines_join(a, b);
    let la = split_lines(a);
    let lb = split_lines(b);
    assert(ar.drop_last() =~= a);
    assert(ar.last() == '\r');
    lemma_split_lines_nonempty(a);
    let lr = la.update(la.len() - 1, la.last().push('\r'));
    assert(split_lines(ar) == lr);
    assert(is_whitespace('\r'));
    lemma_trim_push_whitespace(la.last(), seq!['\r']);
    assert(la.last() + seq!['\r'] =~= la.last().push('\r'));
    assert(lr.drop_last() =~= la.drop_last());
    assert(lr.last() == la.last().push('\r'));
    assert(kept_lines(lr) == kept_lines(la));
    lemma_kept_lines_join(lr, lb);
    lemma_kept_lines_join(la, lb);
}

/// The character sequences held by a vector of character vectors.
pub open spec fn char_views(v: Seq<Vec<char>>) -> Seq<Seq<char>> {
    v.map_values(|l: Vec<char>| l@)
}

proof fn lemma_char_views_push(v: Seq<Vec<char>>, x: Vec<char>)
    ensures
        char_views(v.push(x)) == char_views(v).push(x@),
{
    assert(char_views(v.push(x)) =~= char_views(v).push(x@));
}

/// The lines of `s`, cut at its newline characters.
fn split_lines_exec(s: &[char]) -> (r: Vec<Vec<char>>)
    ensures
        char_views(r@) == split_lines(s@),
{
    let mut lines: Vec<Vec<char>> = Vec::new();
    let mut cur: Vec<char> = Vec::new();
    let n = s.len();
    let mut i: usize = 0;
    assert(s@.take(0) =~= Seq::<char>::empty());
    assert(char_views(lines@) =~= Seq::<Seq<char>>::empty());
    while i < n
        invariant
            i <= n == s@.len(),
            char_views(lines@).push(cur@) == split_lines(s@.take(i as int)),
        decreases n - i,
    {
        let c = s[i];
        proof {
            assert(s@.take(i + 1).drop_last() =~= s@.take(i as int));
            assert(s@.take(i + 1).last() == c);
        }
        if c == '\n' {
            proof {
                lemma_char_views_push(lines@, cur);
            }
            lines.push(cur);
            cur = Vec::new();
            assert(char_views(lines@).push(cur@) =~= split_lines(s@.take(i + 1)));
        } else {
            let ghost before = char_views(lines@).push(cur@);
            cur.push(c);
            assert(char_views(lines@).push(cur@) =~= before.update(
                before.len() - 1,
                before.last().push(c),
            ));
        }
        i = i + 1;
    }
    proof {
        lemma_char_views_push(lines@, cur);
        assert(s@.take(n as int) =~= s@);
    }
    lines.push(cur);
    lines
}

/// The trimmed lines that take part in statements.
fn kept_lines_exec(lines: &Vec<Vec<char>>) -> (r: Vec<Vec<char>>)
    ensures
        char_views(r@) == kept_lines(char_views(lines@)),
{
    let ghost all = char_views(lines@);
    let mut kept: Vec<Vec<char>> = Vec::new();
    let marker: Vec<char> = vec!['-', '-'];
    assert(marker@ =~= comment_marker());
    let n = lines.len();
    let mut i: usize = 0;
    assert(all.take(0) =~= Seq::<Seq<char>>::empty());
    assert(char_views(kept@) =~= Seq::<Seq<char>>::empty());
    while i < n
        invariant
            i <= n == lines@.len(),
            all == char_views(lines@),
            marker@ == comment_marker(),
            char_views(kept@) == kept_lines(all.take(i as int)),
        decreases n - i,
    {
        let t = trim_chars(lines[i].as_slice());
        proof {
            assert(all.take(i + 1).drop_last() =~= all.take(i as int));
            assert(all.take(i + 1).last() == lines@[i as int]@);
        }
        if t.len() > 0 && !starts_with_chars(t.as_slice(), marker.as_slice()) {
            proof {
                lemma_char_views_push(kept@, t);
            }
            kept.push(t);
        }
        i = i + 1;
    }
    assert(all.take(n as int) =~= all);
    kept
}

/// The statements that the kept lines of a script form.
fn group_statements(kept: &Vec<Vec<char>>) -> (r: Vec<Vec<char>>)
    ensures
        char_views(r@) == statements_from(char_views(kept@), Seq::empty()),
{
    let ghost all = char_views(kept@);
    let mut out: Vec<Vec<char>> = Vec::new();
    let mut pending: Vec<char> = Vec::new();
    let n = kept.len();
    let mut i: usize = 0;
    assert(all.skip(0) =~= all);
    assert(char_views(out@) =~= Seq::<Seq<char>>::empty());
    assert(char_views(out@) + statements_from(all.skip(0), pending@) =~= statements_from(
        all,
        Seq::empty(),
    ));
    while i < n
        invariant
            i <= n == kept@.len(),
            all == char_views(kept@),
            char_views(out@) + statements_from(all.skip(i as int), pending@) == statements_from(
                all,
                Seq::empty(),
            ),
        decreases n - i,
    {
        let line = &kept[i];
        let ghost rest = all.skip(i as int);
        proof {
            assert(rest[0] == line@);
            assert(rest.drop_first() =~= all.skip(i + 1));
        }
        let ghost old_out = char_views(out@);
        let ghost old_pending = pending@;
        push_all(&mut pending, line.as_slice());
        pending.push(' ');
        assert(pending@ =~= old_pending + line@ + seq![' ']);
        let ll = line.len();
        if ll > 0 && line[ll - 1] == ';' {
            proof {
                assert(line@.subrange(line@.len() - 1, line@.len() as int) =~= seq![';']);
            }
            let cut = trim_end_char_chars(pending.as_slice(), ';');
            let statement = trim_chars(cut.as_slice());
            if statement.len() > 0 {
                proof {
                    lemma_char_views_push(out@, statement);
                    assert(old_out.push(statement@) =~= old_out + seq![statement@]);
                }
                out.push(statement);
            } else {
                assert(old_out + Seq::<Seq<char>>::empty() =~= old_out);
            }
            pending = Vec::new();
            proof {
                assert(char_views(out@) + statements_from(all.skip(i + 1), pending@) =~= old_out
                    + statements_from(rest, old_pending));
            }
        } else {
            proof {
                if ends_with(line@, seq![';']) {
                    assert(line@[line@.len() - 1] == line@.subrange(
                        line@.len() - 1,
                        line@.len() as int,
                    )[0]);
                }
            }
        }
        i = i + 1;
    }
    assert(all.skip(n as int) =~= Seq::<Seq<char>>::empty());
    let last = trim_chars(pending.as_slice());
    if last.len() > 0 {
        proof {
            lemma_char_views_push(out@, last);
        }
        let ghost old_out = char_views(out@);
        out.push(last);
        assert(char_views(out@) =~= old_out + seq![last@]);
    } else {
        assert(char_views(out@) =~= char_views(out@) + Seq::<Seq<char>>::empty());
    }
    out
}

/// The statements of a migration script, in the order they run: the
/// script's lines are trimmed, blank lines and lines that begin with `--`
/// are dropped, and the rest are joined with spaces into statements that
/// end at each line ending in `;`; what is left at the end forms a last
/// statement.
pub fn migration_statements(content: &str) -> (r: Vec<String>)
    ensures
        r@.len() == script_statements(content@).len(),
        forall|i: int| 0 <= i < r@.len() ==> #[trigger] r@[i]@ == script_statements(content@)[i],
{
    let chars = chars_of(content);
    let lines = split_lines_exec(chars.as_slice());
    let kept = kept_lines_exec(&lines);
    let statements = group_statements(&kept);
    let ghost spec = script_statements(content@);
    assert(char_views(statements@) == spec);
    let mut out: Vec<String> = Vec::new();
    let n = statements.len();
    let mut i: usize = 0;
    while i < n
        invariant
            i <= n == statements@.len(),
            char_views(statements@) == spec,
            out@.len() == i,
            forall|j: int| 0 <= j < i ==> #[trigger] out@[j]@ == spec[j],
        decreases n - i,
    {
        let s = string_from_chars(statements[i].as_slice());
        assert(spec[i as int] == statements@[i as int]@);
        out.push(s);
        i = i + 1;
    }
    out
}


/// The extension that marks a migration script.
pub open spec fn script_extension() -> Seq<char> {
    seq!['.', 's', 'q', 'l']
}

/// A directory entry named `name` is a migration script: its extension, as
/// `Path::extension` reads it, is `sql`. A name made of the extension alone
/// is a hidden file without extension.
pub open spec fn is_migration_file(name: Seq<char>) -> bool {
    name.len() > script_extension().len() && ends_with(name, script_extension())
}

/// A file runs as a migration exactly when its name is a nonempty stem
/// followed by `.sql`: the extension alone, a hidden file, does not.
pub proof fn lemma_migration_file_names(name: Seq<char>)
    ensures
        is_migration_file(name) <==> exists|stem: Seq<char>| stem.len() > 0 && name == stem + ".sql"@,
{
    reveal_strlit(".sql");
    assert(script_extension() =~= ".sql"@);
    if is_migration_file(name) {
        let stem = name.subrange(0, name.len() - 4);
        assert(name =~= stem + ".sql"@);
    }
    if exists|stem: Seq<char>| stem.len() > 0 && name == stem + ".sql"@ {
        let stem = choose|stem: Seq<char>| stem.len() > 0 && name == stem + ".sql"@;
        assert(name.subrange(name.len() - 4, name.len() as int) =~= ".sql"@);
    }
}

/// Whether the directory entry `name` is a migration script.
pub fn is_migration_file_name(name: &str) -> (r: bool)
    ensures
        r == is_migration_file(name@),
{
    let chars = chars_of(name);
    let ext: Vec<char> = vec!['.', 's', 'q', 'l'];
    assert(ext@ =~= script_extension());
    chars.len() > ext.len() && ends_with_chars(chars.as_slice(), ext.as_slice())
}

/// `order` lists the positions in `names` of the migration scripts, each
/// once, sorted by name.
pub open spec fn is_run_order(names: Seq<Seq<char>>, order: Seq<usize>) -> bool {
    &&& forall|k: int| 0 <= k < order.len() ==> #[trigger] order[k] < names.len()
        && is_migration_file(names[order[k] as int])
    &&& forall|i: int| 0 <= i < names.len() && is_migration_file(names[i]) ==> order.contains(
        i as usize,
    )
    &&& forall|k: int, l: int| 0 <= k < l < order.len() ==> order[k] != order[l]
    &&& forall|k: int, l: int|
        0 <= k < l < order.len() ==> text_le(
            #[trigger] names[order[k] as int],
            #[trigger] names[order[l] as int],
        )
}

/// The texts held by a vector of strings.
pub open spec fn string_views(v: Seq<String>) -> Seq<Seq<char>> {
    v.map_values(|s: String| s@)
}

/// The order in which the entries `names` of the migrations directory run:
/// the positions of the `.sql` scripts, sorted by file name. Names compare
/// by their code points, which is the order of their UTF-8 bytes.
#[verifier::rlimit(80)]
pub fn migration_order(names: &Vec<String>) -> (r: Vec<usize>)
    ensures
        is_run_order(string_views(names@), r@),
{
    let ghost nv = string_views(names@);
    let n = names.len();
    let mut texts: Vec<Vec<char>> = Vec::new();
    let mut i: usize = 0;
    while i < n
        invariant
            i <= n == names@.len(),
            nv == string_views(names@),
            texts@.len() == i,
            forall|j: int| 0 <= j < i ==> #[trigger] texts@[j]@ == nv[j],
        decreases n - i,
    {
        let t = chars_of(names[i].as_str());
        texts.push(t);
        i = i + 1;
    }
    let mut order: Vec<usize> = Vec::new();
    let mut i: usize = 0;
    while i < n
        invariant
            i <= n == names@.len(),
            nv == string_views(names@),
            texts@.len() == n,
            forall|j: int| 0 <= j < n ==> #[trigger] texts@[j]@ == nv[j],
            forall|k: int| 0 <= k < order@.len() ==> #[trigger] order@[k] < i
                && is_migration_file(nv[order@[k] as int]),
            forall|j: int| 0 <= j < i && is_migration_file(nv[j]) ==> order@.contains(j as usize),
            forall|k: int, l: int| 0 <= k < l < order@.len() ==> order@[k] != order@[l],
            forall|k: int, l: int|
                0 <= k < l < order@.len() ==> text_le(
                    #[trigger] nv[order@[k] as int],
                    #[trigger] nv[order@[l] as int],
                ),
        decreases n - i,
    {
        if is_migration_file_name(names[i].as_str()) {
            let name = texts[i].as_slice();
            let mut pos: usize = 0;
            while pos < order.len() && text_le_chars(texts[order[pos]].as_slice(), name)
                invariant
                    pos <= order@.len(),
                    i < n == texts@.len(),
                    name@ == nv[i as int],
                    forall|j: int| 0 <= j < n ==> #[trigger] texts@[j]@ == nv[j],
                    forall|k: int| 0 <= k < order@.len() ==> #[trigger] order@[k] < i,
                    forall|k: int| 0 <= k < pos ==> text_le(#[trigger] nv[order@[k] as int], nv[i as int]),
                decreases order@.len() - pos,
            {
                pos = pos + 1;
            }
            let ghost before = order@;
            proof {
                if pos < before.len() {
                    assert(!text_le(nv[before[pos as int] as int], nv[i as int]));
                    assert forall|k: int| pos <= k < before.len() implies text_le(
                        nv[i as int],
                        #[trigger] nv[before[k] as int],
                    ) by {
                        lemma_text_le_total(nv[before[k] as int], nv[i as int]);
                        if k > pos {
                            if text_le(nv[before[k] as int], nv[i as int]) {
                                lemma_text_le_transitive(
                                    nv[before[pos as int] as int],
                                    nv[before[k] as int],
                                    nv[i as int],
                                );
                            }
                        }
                    }
                }
            }
            order.insert(pos, i);
            proof {
                before.insert_ensures(pos as int, i);
                let after = order@;
                assert forall|k: int| 0 <= k < after.len() implies #[trigger] after[k] < i + 1
                    && is_migration_file(nv[after[k] as int]) by {
                    if k < pos {
                    } else if k > pos {
                        assert(after[k] == before[k - 1]);
                    }
                }
                assert forall|j: int| 0 <= j < i + 1 && is_migration_file(nv[j]) implies after.contains(
                    j as usize,
                ) by {
                    if j == i {
                        assert(after[pos as int] == j as usize);
                    } else {
                        let k = choose|k: int| 0 <= k < before.len() && before[k] == j as usize;
                        if k < pos {
                            assert(after[k] == j as usize);
                        } else {
                            assert(after[k + 1] == j as usize);
                        }
                    }
                }
                assert forall|k: int, l: int| 0 <= k < l < after.len() implies after[k]
                    != after[l] by {
                    if k < pos && l > pos {
                        assert(after[l] == before[l - 1]);
                    } else if k > pos {
                        assert(after[k] == before[k - 1]);
                        assert(after[l] == before[l - 1]);
                    } else if k == pos {
                        assert(after[l] == before[l - 1]);
                    }
                }
                assert forall|k: int, l: int| 0 <= k < l < after.len() implies text_le(
                    #[trigger] nv[after[k] as int],
                    #[trigger] nv[after[l] as int],
                ) by {
                    if l < pos {
                    } else if l == pos {
                    } else if k < pos {
                        assert(after[l] == before[l - 1]);
                        if pos < before.len() {
                            assert(text_le(nv[i as int], nv[before[l - 1] as int]));
                            lemma_text_le_transitive(
                                nv[before[k] as int],
                                nv[i as int],
                                nv[before[l - 1] as int],
                            );
                        }
                    } else if k == pos {
                        assert(after[l] == before[l - 1]);
                    } else {
                        assert(after[k] == before[k - 1]);
                        assert(after[l] == before[l - 1]);
                    }
                }
            }
        }
        i = i + 1;
    }
    order
}

/// In a run order, of two scripts whose names agree up to a first
/// differing character, the one whose character there has the smaller code
/// point runs first, whatever the lengths of the names.
pub proof fn lemma_run_order_first_difference(
    names: Seq<Seq<char>>,
    order: Seq<usize>,
    k: int,
    l: int,
    p: Seq<char>,
    x: Seq<char>,
    y: Seq<char>,
)
    requires
        is_run_order(names, order),
        0 <= k < order.len(),
        0 <= l < order.len(),
        names[order[k] as int] == p + x,
        names[order[l] as int] == p + y,
        x.len() > 0,
        y.len() > 0,
        (x[0] as int) < (y[0] as int),
    ensures
        k < l,
{
    lemma_text_le_first_difference(p, x, y);
    assert((p + x)[p.len() as int] == x[0]);
    assert((p + y)[p.len() as int] == y[0]);
    if l < k {
        assert(text_le(names[order[l] as int], names[order[k] as int]));
    }
}

/// Where the migration scripts are looked for.
#[derive(Debug, Clone, Copy, PartialEq, Eq, Structural)]
pub enum MigrationsDir {
    /// `migrations`, beside the service.
    Local,
    /// `corp_login/migrations`, from the workspace root.
    Workspace,
}

/// The migrations directory to read, from which of the two places exist:
/// the local one first; none when neither exists.
pub fn migrations_dir(local_exists: bool, workspace_exists: bool) -> (r: Option<MigrationsDir>)
    ensures
        r == if local_exists {
            Some(MigrationsDir::Local)
        } else if workspace_exists {
            Some(MigrationsDir::Workspace)
        } else {
            None
        },
{
    if local_exists {
        Some(MigrationsDir::Local)
    } else if workspace_exists {
        Some(MigrationsDir::Workspace)
    } else {
        None
    }
}

} // verus!
