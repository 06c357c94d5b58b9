//! Escaping of the characters that markup treats specially.

use vstd::prelude::*;


verus! {

/// The four characters that are never written raw into escaped output.
pub open spec fn is_special(c: char) -> bool {
    c == '&' || c == '<' || c == '>' || c == '"'
}

/// What one character becomes: its entity if it is special, itself
/// otherwise.
pub open spec fn escaped_char(c: char) -> Seq<char> {
    if c == '&' {
        seq!['&', 'a', 'm', 'p', ';']
    } else if c == '<' {
        seq!['&', 'l', 't', ';']
    } else if c == '>' {
        seq!['&', 'g', 't', ';']
    } else if c == '"' {
        seq!['&', 'q', 'u', 'o', 't', ';']
    } else {
        seq![c]
    }
}

/// The escaped form of a text: the escaped forms of its characters, in order.
pub open spec fn escaped(s: Seq<char>) -> Seq<char>
    decreases s.len(),
{
    if s.len() == 0 {
        Seq::empty()
    } else {
        escaped(s.drop_last()) + escaped_char(s.last())
    }
}

/// Whether `p` occurs in `t` at position `i`.
pub open spec fn occurs_at(p: Seq<char>, t: Seq<char>, i: int) -> bool {
    0 <= i && i + p.len() <= t.len() && t.subrange(i, i + p.len()) == p
}

/// Whether one of the four entities starts at position `i` of `t`.
pub open spec fn entity_at(t: Seq<char>, i: int) -> bool {
    ||| occurs_at(escaped_char('&'), t, i)
    ||| occurs_at(escaped_char('<'), t, i)
    ||| occurs_at(escaped_char('>'), t, i)
    ||| occurs_at(escaped_char('"'), t, i)
}

/// Escaping goes character by character, so it distributes over
/// concatenation.
pub proof fn escaped_concat(a: Seq<char>, b: Seq<char>)
    ensures
        escaped(a + b) == escaped(a) + escaped(b),
    decreases b.len(),
{
    if b.len() == 0 {
        assert(a + b =~= a);
        assert(escaped(a) + escaped(b) =~= escaped(a));
    } else {
        escaped_concat(a, b.drop_last());
        assert((a + b).drop_last() =~= a + b.drop_last());
        assert((a + b).last() == b.last());
        assert(escaped(a + b) =~= escaped(a) + escaped(b));
    }
}

/// Escaped output holds no raw `<`, `>` or `"`, and an `&` only where it
/// begins one of the four entities.
pub proof fn escaped_holds_no_raw_special(s: Seq<char>, i: int)
    requires
        0 <= i < escaped(s).len(),
    ensures
        escaped(s)[i] != '<',
        escaped(s)[i] != '>',
        escaped(s)[i] != '"',
        escaped(s)[i] == '&' ==> entity_at(escaped(s), i),
    decreases s.len(),
{
    let head = escaped(s.drop_last());
    let tail = escaped_char(s.last());
    let t = escaped(s);
    assert(t == head + tail);
    if i < head.len() {
        escaped_holds_no_raw_special(s.drop_last(), i);
        if t[i] == '&' {
            assert forall|p: Seq<char>| occurs_at(p, head, i) implies occurs_at(p, t, i) by {
                assert(t.subrange(i, i + p.len()) =~= head.subrange(i, i + p.len()));
            }
        }
    } else {
        let j = i - head.len();
        assert(t[i] == tail[j]);
        if t[i] == '&' {
            assert(j == 0);
            assert(t.subrange(i, i + tail.len()) =~= tail);
            assert(occurs_at(tail, t, i));
        }
    }
}

/// A text without special characters is its own escaped form.
pub proof fn plain_text_is_unchanged(s: Seq<char>)
    requires
        forall|i: int| 0 <= i < s.len() ==> !is_special(#[trigger] s[i]),
    ensures
        escaped(s) == s,
    decreases s.len(),
{
    if s.len() > 0 {
        let front = s.drop_last();
        assert forall|i: int| 0 <= i < front.len() implies !is_special(#[trigger] front[i]) by {
            assert(front[i] == s[i]);
        }
        plain_text_is_unchanged(front);
        assert(!is_special(s[s.len() - 1]));
        assert(front + seq![s.last()] =~= s);
    } else {
        assert(s =~= Seq::<char>::empty());
    }
}

/// The text that escaped output stands for: each entity read back as its
/// character, every other character kept.
pub open spec fn unescaped(t: Seq<char>) -> Seq<char>
    decreases t.len(),
{
    if t.len() == 0 {
        Seq::empty()
    } else if occurs_at(escaped_char('&'), t, 0) {
        seq!['&'] + unescaped(t.skip(5))
    } else if occurs_at(escaped_char('<'), t, 0) {
        seq!['<'] + unescaped(t.skip(4))
    } else if occurs_at(escaped_char('>'), t, 0) {
        seq!['>'] + unescaped(t.skip(4))
    } else if occurs_at(escaped_char('"'), t, 0) {
        seq!['"'] + unescaped(t.skip(6))
    } else {
        seq![t[0]] + unescaped(t.skip(1))
    }
}

/// Escaping loses nothing: reading the entities back gives the text that
/// was escaped.
pub proof fn unescaped_inverts_escaped(s: Seq<char>)
    ensures
        unescaped(escaped(s)) == s,
    decreases s.len(),
{
    if s.len() > 0 {
        let c = s[0];
        let rest = s.drop_first();
        assert(s =~= seq![c] + rest);
        escaped_concat(seq![c], rest);
        assert(seq![c].drop_last() =~= Seq::<char>::empty());
        assert(escaped(seq![c].drop_last()) =~= Seq::<char>::empty());
        assert(seq![c].last() == c);
        assert(escaped(seq![c]) =~= escaped_char(c));
        let e = escaped_char(c);
        let t = escaped(s);
        assert(t == e + escaped(rest));
        assert(t.skip(e.len() as int) =~= escaped(rest));
        assert(t.subrange(0, e.len() as int) =~= e);
        unescaped_inverts_escaped(rest);
        if c == '&' {
        } else {
            assert(t[0] == e[0]);
            assert(!occurs_at(escaped_char('&'), t, 0)) by {
                if occurs_at(escaped_char('&'), t, 0) {
                    assert(t.subrange(0, 5)[1] == 'a');
                    assert(t.subrange(0, 5)[0] == '&');
                    assert(t.subrange(0, 5)[2] == 'm');
                    assert(t[1] == e[1]);
                }
            }
            if c == '<' {
            } else {
                assert(!occurs_at(escaped_char('<'), t, 0)) by {
                    if occurs_at(escaped_char('<'), t, 0) {
                        assert(t.subrange(0, 4)[0] == '&');
                        assert(t.subrange(0, 4)[1] == 'l');
                        assert(t[1] == e[1]);
                    }
                }
                if c == '>' {
                } else {
                    assert(!occurs_at(escaped_char('>'), t, 0)) by {
                        if occurs_at(escaped_char('>'), t, 0) {
                            assert(t.subrange(0, 4)[0] == '&');
                            assert(t.subrange(0, 4)[1] == 'g');
                            assert(t[1] == e[1]);
                        }
                    }
                    if c == '"' {
                    } else {
                        assert(!occurs_at(escaped_char('"'), t, 0)) by {
                            if occurs_at(escaped_char('"'), t, 0) {
                                assert(t.subrange(0, 6)[0] == '&');
                            }
                        }
                    }
                }
            }
        }
        assert(unescaped(t) =~= seq![c] + unescaped(escaped(rest)));
    } else {
        assert(escaped(s) =~= Seq::<char>::empty());
    }
}

/// Appends the escaped form of one character.
pub fn write_escaped_char(c: char, w: &mut String)
    ensures
        final(w)@ == old(w)@ + escaped_char(c),
{
    if c == '&' {
        w.append("&amp;");
        proof {
            reveal_strlit("&amp;");
            assert("&amp;"@ =~= escaped_char(c));
        }
    } else if c == '<' {
        w.append("&lt;");
        proof {
            reveal_strlit("&lt;");
            assert("&lt;"@ =~= escaped_char(c));
        }
    } else if c == '>' {
        w.append("&gt;");
        proof {
            reveal_strlit("&gt;");
            assert("&gt;"@ =~= escaped_char(c));
        }
    } else if c == '"' {
        w.append("&quot;");
        proof {
            reveal_strlit("&quot;");
            assert("&quot;"@ =~= escaped_char(c));
        }
    } else {
        w.push(c);
        assert(w@ =~= old(w)@ + escaped_char(c));
    }
}

/// Appends the escaped form of `s`.
pub fn write_escaped(s: &str, w: &mut String)
    ensures
        final(w)@ == old(w)@ + escaped(s@),
{
    let ghost start = w@;
    for c in it: s.chars()
        invariant
            it.seq() == s@,
            w@ == start + escaped(s@.take(it.index())),
    {
        let ghost k = it.index();
        write_escaped_char(c, w);
        proof {
            assert(s@.take(k + 1).drop_last() =~= s@.take(k));
            assert(s@.take(k + 1).last() == c);
            assert(w@ =~= start + escaped(s@.take(k + 1)));
        }
    }
    assert(s@.take(s@.len() as int) =~= s@);
}

/// The escaped form of an attribute value.
pub fn escape_attr(s: &str) -> (r: String)
    ensures
        r@ == escaped(s@),
{
    let mut out = String::new();
    write_escaped(s, &mut out);
    assert(out@ =~= escaped(s@));
    out
}

/// The escaped form of text content. It uses the same table as attribute
/// values do.
pub fn escape_html(s: &str) -> (r: String)
    ensures
        r@ == escaped(s@),
{
    escape_attr(s)
}

} // verus!
