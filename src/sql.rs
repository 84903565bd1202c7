//! Statements for the database-backed store: one table `safir` of
//! (key, value, environment) rows, every query scoped to one environment
//! except the one that lists environments. Every key and environment name
//! stands in the text as an SQL string literal, with each single quote
//! doubled, so that it is read as that exact string and nothing else.
use vstd::prelude::*;
use vstd::string::*;
use crate::entries::strings_view;

verus! {

/// How character `c` stands in an SQL string literal: a single quote doubled,
/// any other character as it is.
pub open spec fn piece(c: char) -> Seq<char> {
    if c == '\'' {
        seq!['\'', '\'']
    } else {
        seq![c]
    }
}

/// `k` with each single quote doubled.
pub open spec fn escaped(k: Seq<char>) -> Seq<char>
    decreases k.len(),
{
    if k.len() == 0 {
        Seq::empty()
    } else {
        piece(k[0]) + escaped(k.skip(1))
    }
}

/// Read left to right as the inside of an SQL string literal, `s` holds no
/// single quote that would end the literal: each comes in a doubled pair.
pub open spec fn no_lone_quote(s: Seq<char>) -> bool
    decreases s.len(),
{
    if s.len() == 0 {
        true
    } else if s[0] == '\'' {
        s.len() >= 2 && s[1] == '\'' && no_lone_quote(s.skip(2))
    } else {
        no_lone_quote(s.skip(1))
    }
}

/// The string that the inside `s` of an SQL string literal stands for, read
/// left to right: a doubled single quote stands for one.
pub open spec fn unescaped(s: Seq<char>) -> Seq<char>
    decreases s.len(),
{
    if s.len() == 0 {
        Seq::empty()
    } else if s[0] == '\'' && s.len() >= 2 {
        seq!['\''] + unescaped(s.skip(2))
    } else {
        seq![s[0]] + unescaped(s.skip(1))
    }
}

/// Escaping one more character appends its piece.
pub proof fn lemma_escaped_push(k: Seq<char>, c: char)
    ensures
        escaped(k.push(c)) == escaped(k) + piece(c),
    decreases k.len(),
{
    if k.len() == 0 {
        assert(k.push(c).skip(1) =~= Seq::<char>::empty());
        assert(k.push(c)[0] == c);
        assert(escaped(k.push(c).skip(1)) == Seq::<char>::empty());
        assert(escaped(k) == Seq::<char>::empty());
        assert(escaped(k.push(c)) =~= piece(c));
    } else {
        assert(k.push(c).skip(1) =~= k.skip(1).push(c));
        lemma_escaped_push(k.skip(1), c);
        assert(escaped(k.push(c)) =~= escaped(k) + piece(c));
    }
}

/// The literal made of `k` reads back as `k` alone: its inside holds no
/// single quote that would end it early, and stands for exactly `k`. So a key
/// or an environment name is compared as that string and never read as SQL.
pub proof fn lemma_literal_reads_back(k: Seq<char>)
    ensures
        no_lone_quote(escaped(k)),
        unescaped(escaped(k)) == k,
    decreases k.len(),
{
    if k.len() > 0 {
        let r = escaped(k.skip(1));
        let e = escaped(k);
        lemma_literal_reads_back(k.skip(1));
        assert(e == piece(k[0]) + r);
        if k[0] == '\'' {
            assert(e[0] == '\'' && e[1] == '\'');
            assert(e.skip(2) =~= r);
            assert(unescaped(e) =~= seq!['\''] + k.skip(1));
        } else {
            assert(e[0] == k[0]);
            assert(e.skip(1) =~= r);
            assert(unescaped(e) =~= seq![k[0]] + k.skip(1));
        }
        assert(k =~= seq![k[0]] + k.skip(1));
    }
}

/// `k` as an SQL string literal.
pub open spec fn quoted(k: Seq<char>) -> Seq<char> {
    "'"@ + escaped(k) + "'"@
}

/// Each key as an SQL string literal, separated by a comma and a space.
pub open spec fn quoted_list(keys: Seq<Seq<char>>) -> Seq<char>
    decreases keys.len(),
{
    if keys.len() == 0 {
        Seq::empty()
    } else if keys.len() == 1 {
        quoted(keys[0])
    } else {
        quoted_list(keys.drop_last()) + ", "@ + quoted(keys.last())
    }
}

/// The query for the rows of `environment` whose key is one of `keys`.
pub open spec fn select_sql(environment: Seq<char>, keys: Seq<Seq<char>>) -> Seq<char> {
    "select * from safir where environment = "@ + quoted(environment) + " and key in ("@
        + quoted_list(keys) + ")"@
}

/// The statement deleting the rows of `environment` whose key is one of `keys`.
pub open spec fn delete_sql(environment: Seq<char>, keys: Seq<Seq<char>>) -> Seq<char> {
    "delete from safir where environment = "@ + quoted(environment) + " and key in ("@
        + quoted_list(keys) + ")"@
}

/// The query for all rows of `environment`.
pub open spec fn list_sql(environment: Seq<char>) -> Seq<char> {
    "select * from safir where environment = "@ + quoted(environment)
}

/// The statement deleting all rows of `environment`.
pub open spec fn clear_sql(environment: Seq<char>) -> Seq<char> {
    "delete from safir where environment = "@ + quoted(environment)
}

/// `k` as an SQL string literal: in single quotes, each single quote doubled.
pub fn quote(k: &str) -> (r: String)
    ensures
        r@ == quoted(k@),
{
    let mut out = String::from_str("'");
    let n = k.unicode_len();
    let mut i: usize = 0;
    while i < n
        invariant
            n == k@.len(),
            i <= n,
            out@ == "'"@ + escaped(k@.take(i as int)),
        decreases n - i,
    {
        let ghost t = k@.take(i + 1);
        let c = k.get_char(i);
        proof {
            lemma_escaped_push(k@.take(i as int), c);
            assert(t =~= k@.take(i as int).push(c));
        }
        if c == '\'' {
            out.append("''");
            proof {
                reveal_strlit("''");
                assert(out@ =~= "'"@ + escaped(t));
            }
        } else {
            let one = k.substring_char(i, i + 1);
            out.append(one);
            proof {
                assert(one@ =~= seq![c]);
                assert(out@ =~= "'"@ + escaped(t));
            }
        }
        i = i + 1;
    }
    proof {
        assert(k@.take(i as int) =~= k@);
    }
    out.append("'");
    out
}

/// The keys, each as an SQL string literal, separated by ", ".
pub fn quote_keys(keys: &Vec<String>) -> (r: String)
    ensures
        r@ == quoted_list(strings_view(keys@)),
{
    let mut out = String::new();
    let mut i: usize = 0;
    while i < keys.len()
        invariant
            i <= keys.len(),
            out@ == quoted_list(strings_view(keys@).take(i as int)),
        decreases keys.len() - i,
    {
        let ghost ks = strings_view(keys@).take(i + 1);
        proof {
            assert(ks.drop_last() =~= strings_view(keys@).take(i as int));
            assert(ks.last() == keys[i as int]@);
        }
        if i > 0 {
            out.append(", ");
        }
        let q = quote(keys[i].as_str());
        out.append(q.as_str());
        proof {
            if i == 0 {
                assert(out@ =~= quoted(ks[0]));
            } else {
                assert(out@ =~= quoted_list(ks.drop_last()) + ", "@ + quoted(ks.last()));
            }
        }
        i = i + 1;
    }
    proof {
        assert(strings_view(keys@).take(i as int) =~= strings_view(keys@));
    }
    out
}

/// The query for the rows of `environment` whose key is one of `keys`.
pub fn select_query(environment: &String, keys: &Vec<String>) -> (r: String)
    ensures
        r@ == select_sql(environment@, strings_view(keys@)),
{
    let mut q = String::from_str("select * from safir where environment = ");
    let env = quote(environment.as_str());
    q.append(env.as_str());
    q.append(" and key in (");
    let list = quote_keys(keys);
    q.append(list.as_str());
    q.append(")");
    proof {
        assert(q@ =~= select_sql(environment@, strings_view(keys@)));
    }
    q
}

/// The statement deleting the rows of `environment` whose key is one of `keys`.
pub fn delete_query(environment: &String, keys: &Vec<String>) -> (r: String)
    ensures
        r@ == delete_sql(environment@, strings_view(keys@)),
{
    let mut q = String::from_str("delete from safir where environment = ");
    let env = quote(environment.as_str());
    q.append(env.as_str());
    q.append(" and key in (");
    let list = quote_keys(keys);
    q.append(list.as_str());
    q.append(")");
    proof {
        assert(q@ =~= delete_sql(environment@, strings_view(keys@)));
    }
    q
}

/// The query for all rows of `environment`.
pub fn list_query(environment: &String) -> (r: String)
    ensures
        r@ == list_sql(environment@),
{
    let mut q = String::from_str("select * from safir where environment = ");
    let env = quote(environment.as_str());
    q.append(env.as_str());
    q
}

/// The statement deleting all rows of `environment`.
pub fn clear_query(environment: &String) -> (r: String)
    ensures
        r@ == clear_sql(environment@),
{
    let mut q = String::from_str("delete from safir where environment = ");
    let env = quote(environment.as_str());
    q.append(env.as_str());
    q
}

} // verus!
