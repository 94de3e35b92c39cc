use vstd::prelude::*;

use crate::text::push_char;

verus! {

/// Whether `s` holds an `=` anywhere.
pub open spec fn has_eq(s: Seq<char>) -> bool {
    exists|i: int| 0 <= i < s.len() && s[i] == '='
}

/// Splits a `KEY=VALUE` argument at its first `=`.  An argument without
/// any `=` is rejected with a message naming it.
pub fn pair_parser(s: &str) -> (r: Result<(String, String), String>)
    ensures
        r is Ok <==> has_eq(s@),
        r matches Ok(kv) ==> kv.0@ + seq!['='] + kv.1@ == s@ && !has_eq(kv.0@),
        r matches Err(m) ==> m@ == "Invalid env format: "@ + s@,
{
    let len = s.unicode_len();
    let mut i: usize = 0;
    while i < len
        invariant
            len == s@.len(),
            i <= len,
            forall|j: int| 0 <= j < i ==> s@[j] != '=',
        decreases len - i,
    {
        if s.get_char(i) == '=' {
            let k = s.substring_char(0, i);
            let v = s.substring_char(i + 1, len);
            proof {
                assert(k@ + seq!['='] + v@ =~= s@);
                assert(has_eq(s@));
            }
            return Ok((k.to_owned(), v.to_owned()));
        }
        i += 1;
    }
    let mut m = String::from_str("Invalid env format: ");
    m.append(s);
    Err(m)
}

/// True when the colon at `i` separates two parts: a colon that opens a
/// `://` scheme separator stays inside its part.
pub open spec fn sep_at(s: Seq<char>, i: int) -> bool {
    s[i] == ':' && !(i + 2 < s.len() && s[i + 1] == '/' && s[i + 2] == '/')
}

/// `parts` with `pre` prepended to its first element.
pub open spec fn prepend_first(pre: Seq<char>, parts: Seq<Seq<char>>) -> Seq<Seq<char>> {
    seq![pre + parts[0]] + parts.skip(1)
}

/// The pieces of a publish mapping: `s` split at every separating colon,
/// in order, empty pieces kept.
pub open spec fn publish_parts(s: Seq<char>) -> Seq<Seq<char>>
    decreases s.len(),
{
    if s.len() == 0 {
        seq![Seq::<char>::empty()]
    } else if sep_at(s, 0) {
        seq![Seq::<char>::empty()] + publish_parts(s.skip(1))
    } else {
        prepend_first(seq![s[0]], publish_parts(s.skip(1)))
    }
}

proof fn lemma_publish_parts_nonempty(s: Seq<char>)
    ensures
        publish_parts(s).len() >= 1,
    decreases s.len(),
{
    if s.len() != 0 {
        lemma_publish_parts_nonempty(s.skip(1));
    }
}

/// Splits a publish mapping into its address pieces: every colon separates,
/// except the colon of a `://` scheme separator, which stays with its part.
pub fn parse_publish(input: &str) -> (r: Vec<String>)
    ensures
        r.deep_view() == publish_parts(input@),
{
    let len = input.unicode_len();
    let mut parts: Vec<String> = Vec::new();
    let mut cur = String::new();
    let mut i: usize = 0;
    proof {
        lemma_publish_parts_nonempty(input@);
        assert(input@.skip(0) =~= input@);
        assert(prepend_first(cur@, publish_parts(input@)) =~= publish_parts(input@));
        assert(parts.deep_view() + prepend_first(cur@, publish_parts(input@.skip(0)))
            =~= publish_parts(input@));
    }
    while i < len
        invariant
            len == input@.len(),
            i <= len,
            publish_parts(input@) == parts.deep_view() + prepend_first(
                cur@,
                publish_parts(input@.skip(i as int)),
            ),
        decreases len - i,
    {
        let ghost rest = input@.skip(i as int);
        let ghost rest1 = input@.skip(i + 1 as int);
        proof {
            assert(rest.skip(1) =~= rest1);
            lemma_publish_parts_nonempty(rest1);
        }
        let c = input.get_char(i);
        let is_sep = c == ':' && !(len - i > 2 && input.get_char(i + 1) == '/' && input.get_char(
            i + 2,
        ) == '/');
        proof {
            assert(rest[0] == input@[i as int]);
            if len - i > 2 {
                assert(rest[1] == input@[i + 1]);
                assert(rest[2] == input@[i + 2]);
            }
            assert(is_sep == sep_at(rest, 0));
        }
        if is_sep {
            let ghost parts0 = parts.deep_view();
            let ghost cur0 = cur@;
            parts.push(cur);
            cur = String::new();
            proof {
                assert(publish_parts(rest) =~= seq![Seq::<char>::empty()] + publish_parts(rest1));
                assert(parts.deep_view() =~= parts0.push(cur0));
                assert(prepend_first(cur0, seq![Seq::<char>::empty()] + publish_parts(rest1))
                    =~~= seq![cur0] + publish_parts(rest1));
                assert(prepend_first(cur@, publish_parts(rest1)) =~= publish_parts(rest1));
                assert(parts0.push(cur0) + publish_parts(rest1) =~= parts0 + (seq![cur0]
                    + publish_parts(rest1)));
            }
        } else {
            let ghost cur0 = cur@;
            push_char(&mut cur, c);
            proof {
                assert(publish_parts(rest) =~= prepend_first(
                    seq![rest[0]],
                    publish_parts(rest1),
                ));
                assert(prepend_first(cur0, prepend_first(seq![rest[0]], publish_parts(rest1)))
                    =~~= prepend_first(cur0 + seq![rest[0]], publish_parts(rest1)));
                assert(cur@ =~= cur0 + seq![rest[0]]);
            }
        }
        i += 1;
    }
    proof {
        assert(input@.skip(len as int) =~= Seq::<char>::empty());
        assert(publish_parts(Seq::<char>::empty()) =~= seq![Seq::<char>::empty()]);
        assert(prepend_first(cur@, seq![Seq::<char>::empty()]) =~~= seq![cur@]);
    }
    let ghost parts0 = parts.deep_view();
    let ghost cur0 = cur@;
    parts.push(cur);
    proof {
        assert(parts.deep_view() =~= parts0.push(cur0));
        assert(parts0.push(cur0) =~= parts0 + seq![cur0]);
    }
    parts
}

} // verus!
