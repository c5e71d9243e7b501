//! Small text utilities shared by the renderers.

use vstd::prelude::*;

verus! {

/// Relies on `String`'s `FromIterator<char>`: collecting characters
/// yields the string holding exactly those characters in order.
#[verifier::external_body]
pub fn chars_to_string(chars: &Vec<char>) -> (r: String)
    ensures
        r@ == chars@,
{
    chars.iter().collect()
}

/// The items joined by the separator: the items in order, one separator
/// between each adjacent pair.
pub open spec fn join_chars(items: Seq<Seq<char>>, sep: Seq<char>) -> Seq<char>
    decreases items.len(),
{
    if items.len() == 0 {
        Seq::empty()
    } else if items.len() == 1 {
        items[0]
    } else {
        items[0] + sep + join_chars(items.drop_first(), sep)
    }
}

/// Joining one more item appends a separator and the item.
pub proof fn lemma_join_chars_push(items: Seq<Seq<char>>, sep: Seq<char>, item: Seq<char>)
    ensures
        join_chars(items.push(item), sep) == if items.len() == 0 {
            item
        } else {
            join_chars(items, sep) + sep + item
        },
    decreases items.len(),
{
    if items.len() == 0 {
        assert(items.push(item)[0] == item);
        assert(items.push(item).len() == 1);
    } else if items.len() == 1 {
        assert(items.push(item).drop_first() =~= seq![item]);
        assert(join_chars(seq![item], sep) == item);
        assert(join_chars(items.push(item), sep) == items[0] + sep + item);
    } else {
        lemma_join_chars_push(items.drop_first(), sep, item);
        assert(items.push(item).drop_first() =~= items.drop_first().push(item));
        assert(join_chars(items, sep) + sep + item =~= items[0] + sep + (join_chars(
            items.drop_first(),
            sep,
        ) + sep + item));
    }
}

/// The index of the first newline in `s`, or `s`'s length when `s` holds
/// none.
pub open spec fn first_newline(s: Seq<char>) -> nat
    decreases s.len(),
{
    if s.len() == 0 {
        0
    } else if s[0] == '\n' {
        0
    } else {
        (1 + first_newline(s.drop_first())) as nat
    }
}

/// An index before which no newline stands, and which is a newline or the
/// end, is the first newline.
pub proof fn lemma_first_newline_is(s: Seq<char>, j: int)
    requires
        0 <= j <= s.len(),
        forall|k: int| 0 <= k < j ==> s[k] != '\n',
        j < s.len() ==> s[j] == '\n',
    ensures
        first_newline(s) == j,
    decreases s.len(),
{
    if s.len() == 0 {
    } else if s[0] == '\n' {
        assert(j == 0);
    } else {
        assert(j > 0);
        assert forall|k: int| 0 <= k < j - 1 implies s.drop_first()[k] != '\n' by {
            assert(s.drop_first()[k] == s[k + 1]);
        }
        if j - 1 < s.drop_first().len() {
            assert(s.drop_first()[j - 1] == s[j]);
        }
        lemma_first_newline_is(s.drop_first(), j - 1);
    }
}

/// The line with one trailing carriage return, if any, removed.
pub open spec fn strip_cr(line: Seq<char>) -> Seq<char> {
    if line.len() > 0 && line.last() == '\r' {
        line.drop_last()
    } else {
        line
    }
}

/// The non-empty lines of `s`: the text is split at newlines, one
/// trailing carriage return is stripped from each piece, and empty pieces
/// are dropped.
pub open spec fn split_lines_spec(s: Seq<char>) -> Seq<Seq<char>>
    decreases s.len(),
{
    if s.len() == 0 {
        Seq::empty()
    } else {
        let j = first_newline(s) as int;
        if j >= s.len() {
            let line = strip_cr(s);
            if line.len() == 0 {
                Seq::empty()
            } else {
                seq![line]
            }
        } else {
            let line = strip_cr(s.take(j));
            let rest = split_lines_spec(s.skip(j + 1));
            if line.len() == 0 {
                rest
            } else {
                seq![line] + rest
            }
        }
    }
}

/// Splits text into its non-empty lines, as [`split_lines_spec`] says.
pub fn split_lines(s: &str) -> (r: Vec<String>)
    ensures
        r.deep_view() == split_lines_spec(s@),
{
    let n = s.unicode_len();
    let mut r: Vec<String> = Vec::new();
    let mut i: usize = 0;
    proof {
        assert(s@.skip(0) =~= s@);
    }
    while i < n
        invariant
            n == s@.len(),
            0 <= i <= n,
            r.deep_view() + split_lines_spec(s@.skip(i as int)) == split_lines_spec(s@),
        decreases n - i,
    {
        let ghost t = s@.skip(i as int);
        let ghost pre_deep = r.deep_view();
        let mut j: usize = i;
        while j < n && s.get_char(j) != '\n'
            invariant
                n == s@.len(),
                i <= j <= n,
                forall|k: int| i <= k < j ==> s@[k] != '\n',
            decreases n - j,
        {
            j = j + 1;
        }
        proof {
            assert forall|k: int| 0 <= k < j - i implies t[k] != '\n' by {
                assert(t[k] == s@[k + i]);
            }
            if j < n {
                assert(t[j - i] == s@[j as int]);
            }
            lemma_first_newline_is(t, j - i);
        }
        let endl = if j > i && s.get_char(j - 1) == '\r' {
            j - 1
        } else {
            j
        };
        let ghost line = strip_cr(t.take(j - i));
        proof {
            assert(t.take(j - i) =~= s@.subrange(i as int, j as int));
            if j > i && s@[j - 1] == '\r' {
                assert(s@.subrange(i as int, j as int).last() == s@[j - 1]);
                assert(line =~= s@.subrange(i as int, endl as int));
            } else {
                assert(line =~= s@.subrange(i as int, endl as int));
            }
        }
        if endl > i {
            let piece = s.substring_char(i, endl).to_owned();
            proof {
                assert(piece@ == line);
            }
            r.push(piece);
            proof {
                assert(r.deep_view() =~= pre_deep.push(line));
                assert(pre_deep.push(line) =~= pre_deep + seq![line]);
            }
        } else {
            proof {
                assert(line.len() == 0);
            }
        }
        proof {
            if j < n {
                assert(t.skip(j - i + 1) =~= s@.skip(j + 1));
                if line.len() == 0 {
                    assert(split_lines_spec(t) == split_lines_spec(s@.skip(j + 1)));
                    assert(r.deep_view() + split_lines_spec(s@.skip(j + 1)) =~= split_lines_spec(
                        s@,
                    ));
                } else {
                    assert(split_lines_spec(t) == seq![line] + split_lines_spec(s@.skip(j + 1)));
                    assert(r.deep_view() + split_lines_spec(s@.skip(j + 1)) =~= split_lines_spec(
                        s@,
                    ));
                }
            } else {
                assert(t.take(j - i) =~= t);
                assert(s@.skip(n as int) =~= Seq::<char>::empty());
                if line.len() == 0 {
                    assert(split_lines_spec(t) =~= Seq::<Seq<char>>::empty());
                } else {
                    assert(split_lines_spec(t) =~= seq![line]);
                }
                assert(r.deep_view() + split_lines_spec(s@.skip(n as int)) =~= split_lines_spec(
                    s@,
                ));
            }
        }
        i = if j < n {
            j + 1
        } else {
            n
        };
    }
    proof {
        assert(s@.skip(n as int) =~= Seq::<char>::empty());
        assert(r.deep_view() + split_lines_spec(s@.skip(n as int)) =~= r.deep_view());
    }
    r
}

/// Joins the strings with the separator.
pub fn join_strings(items: &Vec<String>, sep: &str) -> (r: String)
    ensures
        r@ == join_chars(items.deep_view(), sep@),
{
    let mut r = String::new();
    let mut i: usize = 0;
    while i < items.len()
        invariant
            0 <= i <= items@.len(),
            items.deep_view().len() == items@.len(),
            r@ == join_chars(items.deep_view().take(i as int), sep@),
        decreases items@.len() - i,
    {
        let ghost prefix = items.deep_view().take(i as int);
        if i > 0 {
            r.append(sep);
        }
        r.append(items[i].as_str());
        proof {
            lemma_join_chars_push(prefix, sep@, items.deep_view()[i as int]);
            assert(items.deep_view().take(i + 1) =~= prefix.push(items.deep_view()[i as int]));
        }
        i = i + 1;
    }
    proof {
        assert(items.deep_view().take(items@.len() as int) =~= items.deep_view());
    }
    r
}

} // verus!
