//! Namespace bindings written `PREFIX=URI`, the spelling `oxml-cli`
//! takes for `--ns`.
//!
//! A prefix in an expression resolves against bindings supplied with
//! the query rather than against the document, and an unbound prefix is
//! an error; these are the bindings a caller supplies.

use crate::engine::{bindings_view, Binding};
use vstd::prelude::*;
use vstd::string::*;

verus! {

/// `k` is the position of the first `=` in `entry`.
pub open spec fn is_first_equals(entry: Seq<char>, k: int) -> bool {
    &&& 0 <= k < entry.len()
    &&& entry[k] == '='
    &&& forall|j: int| 0 <= j < k ==> entry[j] != '='
}

/// An entry split at its first `=`: the prefix before it and the URI
/// after it, which may itself hold `=`. `None` when there is no `=`.
pub open spec fn split_binding(entry: Seq<char>) -> Option<Binding> {
    if exists|k: int| is_first_equals(entry, k) {
        let k = choose|k: int| is_first_equals(entry, k);
        Some((entry.take(k), entry.skip(k + 1)))
    } else {
        None
    }
}

/// The prefix the XML specification binds, which no entry may rebind.
pub open spec fn xml_prefix() -> Seq<char> {
    seq!['x', 'm', 'l']
}

/// The message for an entry without `=`.
pub open spec fn not_a_binding_message(entry: Seq<char>) -> Seq<char> {
    "`"@ + entry + "` is not a namespace binding; write PREFIX=URI"@
}

/// The message for an entry with nothing before its `=`.
pub open spec fn missing_prefix_message() -> Seq<char> {
    "a namespace binding needs a prefix"@
}

/// The message for an entry that binds `xml`.
pub open spec fn reserved_prefix_message() -> Seq<char> {
    "`xml` is bound by the specification and may not be rebound"@
}

/// What one entry binds, or why it binds nothing.
pub open spec fn check_binding(entry: Seq<char>) -> Result<Binding, Seq<char>> {
    match split_binding(entry) {
        None => Err(not_a_binding_message(entry)),
        Some(binding) => if binding.0.len() == 0 {
            Err(missing_prefix_message())
        } else if binding.0 == xml_prefix() {
            Err(reserved_prefix_message())
        } else {
            Ok(binding)
        },
    }
}

/// `bindings` with every binding of `prefix` taken out, the others in
/// their order.
pub open spec fn without_prefix(bindings: Seq<Binding>, prefix: Seq<char>) -> Seq<Binding>
    decreases bindings.len(),
{
    if bindings.len() == 0 {
        bindings
    } else {
        let rest = without_prefix(bindings.drop_last(), prefix);
        if bindings.last().0 == prefix {
            rest
        } else {
            rest.push(bindings.last())
        }
    }
}

/// The bindings that `entries` make, read in order: a later binding of
/// a prefix replaces an earlier one and moves to the end. The first
/// entry that binds nothing is the error.
pub open spec fn bind_all(entries: Seq<Seq<char>>) -> Result<Seq<Binding>, Seq<char>>
    decreases entries.len(),
{
    if entries.len() == 0 {
        Ok(Seq::empty())
    } else {
        match bind_all(entries.drop_last()) {
            Err(message) => Err(message),
            Ok(earlier) => match check_binding(entries.last()) {
                Err(message) => Err(message),
                Ok(binding) => Ok(without_prefix(earlier, binding.0).push(binding)),
            },
        }
    }
}

/// The URI that `bindings` give `prefix`, looking from the end.
pub open spec fn lookup(bindings: Seq<Binding>, prefix: Seq<char>) -> Option<Seq<char>>
    decreases bindings.len(),
{
    if bindings.len() == 0 {
        None
    } else if bindings.last().0 == prefix {
        Some(bindings.last().1)
    } else {
        lookup(bindings.drop_last(), prefix)
    }
}

/// The URI of the last entry that binds `prefix`.
pub open spec fn last_binding(entries: Seq<Seq<char>>, prefix: Seq<char>) -> Option<Seq<char>>
    decreases entries.len(),
{
    if entries.len() == 0 {
        None
    } else {
        match check_binding(entries.last()) {
            Ok(binding) if binding.0 == prefix => Some(binding.1),
            _ => last_binding(entries.drop_last(), prefix),
        }
    }
}

/// The position of the first `=` in `entry`, if any.
fn first_equals(entry: &str) -> (r: Option<usize>)
    ensures
        match r {
            Some(k) => is_first_equals(entry@, k as int),
            None => forall|k: int| !is_first_equals(entry@, k),
        },
{
    let n = entry.unicode_len();
    let mut i: usize = 0;
    while i < n
        invariant
            n == entry@.len(),
            i <= n,
            forall|j: int| 0 <= j < i ==> entry@[j] != '=',
        decreases n - i,
    {
        if entry.get_char(i) == '=' {
            return Some(i);
        }
        i = i + 1;
    }
    None
}

/// Whether two strings hold the same characters.
fn same_text(a: &str, b: &str) -> (r: bool)
    ensures
        r == (a@ == b@),
{
    let n = a.unicode_len();
    if n != b.unicode_len() {
        return false;
    }
    let mut i: usize = 0;
    while i < n
        invariant
            n == a@.len(),
            n == b@.len(),
            i <= n,
            forall|j: int| 0 <= j < i ==> a@[j] == b@[j],
        decreases n - i,
    {
        if a.get_char(i) != b.get_char(i) {
            return false;
        }
        i = i + 1;
    }
    assert(a@ =~= b@);
    true
}

/// Whether `prefix` is `xml`.
fn is_xml_prefix(prefix: &str) -> (r: bool)
    ensures
        r == (prefix@ == xml_prefix()),
{
    if prefix.unicode_len() != 3 {
        return false;
    }
    let r = prefix.get_char(0) == 'x' && prefix.get_char(1) == 'm' && prefix.get_char(2) == 'l';
    if r {
        assert(prefix@ =~= xml_prefix());
    }
    r
}

/// What one entry binds, or why it binds nothing.
fn check_entry<'a>(entry: &'a str) -> (r: Result<(&'a str, &'a str), String>)
    ensures
        match r {
            Ok(binding) => check_binding(entry@) == Ok::<Binding, Seq<char>>((binding.0@, binding.1@)),
            Err(message) => check_binding(entry@) == Err::<Binding, Seq<char>>(message@),
        },
{
    match first_equals(entry) {
        None => {
            let mut message = String::from_str("`");
            message.append(entry);
            message.append("` is not a namespace binding; write PREFIX=URI");
            assert(message@ =~= not_a_binding_message(entry@));
            Err(message)
        },
        Some(k) => {
            proof {
                let c = choose|c: int| is_first_equals(entry@, c);
                assert(c == k as int) by {
                    if c < k as int {
                        assert(entry@[c] != '=');
                    } else if c > k as int {
                        assert(entry@[k as int] != '=');
                    }
                }
            }
            let n = entry.unicode_len();
            let prefix = entry.substring_char(0, k);
            let uri = entry.substring_char(k + 1, n);
            assert(prefix@ =~= entry@.take(k as int));
            assert(uri@ =~= entry@.skip(k + 1));
            if k == 0 {
                Err(String::from_str("a namespace binding needs a prefix"))
            } else if is_xml_prefix(prefix) {
                Err(String::from_str("`xml` is bound by the specification and may not be rebound"))
            } else {
                Ok((prefix, uri))
            }
        },
    }
}

proof fn lemma_bindings_view_push<'a>(pairs: Seq<(&'a str, &'a str)>, pair: (&'a str, &'a str))
    ensures
        bindings_view(pairs.push(pair)) == bindings_view(pairs).push((pair.0@, pair.1@)),
{
    assert(bindings_view(pairs.push(pair)) =~= bindings_view(pairs).push((pair.0@, pair.1@)));
}

/// `bindings` with every binding of `prefix` taken out.
fn drop_prefix<'a>(bindings: Vec<(&'a str, &'a str)>, prefix: &str) -> (r: Vec<(&'a str, &'a str)>)
    ensures
        bindings_view(r@) == without_prefix(bindings_view(bindings@), prefix@),
{
    let mut kept: Vec<(&'a str, &'a str)> = Vec::new();
    let n = bindings.len();
    let mut i: usize = 0;
    while i < n
        invariant
            n == bindings@.len(),
            i <= n,
            bindings_view(kept@) == without_prefix(bindings_view(bindings@.take(i as int)), prefix@),
        decreases n - i,
    {
        let binding = bindings[i];
        proof {
            assert(bindings@.take(i + 1) =~= bindings@.take(i as int).push(binding));
            lemma_bindings_view_push(bindings@.take(i as int), binding);
            assert(bindings_view(bindings@.take(i + 1)).drop_last() =~= bindings_view(
                bindings@.take(i as int),
            ));
            lemma_bindings_view_push(kept@, binding);
        }
        if !same_text(binding.0, prefix) {
            kept.push(binding);
        }
        i = i + 1;
    }
    assert(bindings@.take(n as int) =~= bindings@);
    kept
}

/// Once some entries fail, more entries do not change the error.
proof fn lemma_error_persists(entries: Seq<Seq<char>>, i: int)
    requires
        0 <= i <= entries.len(),
        bind_all(entries.take(i)) is Err,
    ensures
        bind_all(entries) == bind_all(entries.take(i)),
    decreases entries.len() - i,
{
    if i < entries.len() {
        assert(entries.take(i + 1).drop_last() =~= entries.take(i));
        lemma_error_persists(entries, i + 1);
    } else {
        assert(entries.take(i) =~= entries);
    }
}

/// Parses bindings written `PREFIX=URI`.
///
/// Each entry is split at its first `=`, so a URI may hold `=`. An
/// entry without `=`, with nothing before it, or binding `xml` is an
/// error, and the first such entry is the one reported. Later bindings
/// of a prefix win, so a caller can layer defaults.
pub fn parse_bindings(namespaces: &[String]) -> (r: Result<Vec<(&str, &str)>, String>)
    ensures
        match r {
            Ok(bindings) => bind_all(namespaces.deep_view()) == Ok::<Seq<Binding>, Seq<char>>(
                bindings_view(bindings@),
            ),
            Err(message) => bind_all(namespaces.deep_view()) == Err::<Seq<Binding>, Seq<char>>(
                message@,
            ),
        },
{
    let ghost entries = namespaces.deep_view();
    let mut out: Vec<(&str, &str)> = Vec::new();
    let n = namespaces.len();
    let mut i: usize = 0;
    assert(entries.take(0) =~= Seq::<Seq<char>>::empty());
    assert(bindings_view(out@) =~= Seq::<Binding>::empty());
    while i < n
        invariant
            n == namespaces@.len(),
            entries == namespaces.deep_view(),
            i <= n,
            bind_all(entries.take(i as int)) == Ok::<Seq<Binding>, Seq<char>>(bindings_view(out@)),
        decreases n - i,
    {
        let entry = namespaces[i].as_str();
        assert(entries.take(i + 1).drop_last() =~= entries.take(i as int));
        assert(entries.take(i + 1).last() == entry@);
        match check_entry(entry) {
            Err(message) => {
                proof {
                    lemma_error_persists(entries, i + 1);
                }
                return Err(message);
            },
            Ok(binding) => {
                out = drop_prefix(out, binding.0);
                proof {
                    lemma_bindings_view_push(out@, binding);
                }
                out.push(binding);
            },
        }
        i = i + 1;
    }
    assert(entries.take(n as int) =~= entries);
    Ok(out)
}

/// No prefix is bound twice, none is empty, and none is `xml`.
pub open spec fn well_formed_bindings(bindings: Seq<Binding>) -> bool {
    &&& forall|i: int| 0 <= i < bindings.len() ==> (#[trigger] bindings[i]).0.len() > 0
    &&& forall|i: int| 0 <= i < bindings.len() ==> (#[trigger] bindings[i]).0 != xml_prefix()
    &&& forall|i: int, j: int|
        0 <= i < j < bindings.len() ==> (#[trigger] bindings[i]).0 != (#[trigger] bindings[j]).0
}

proof fn lemma_without_prefix(bindings: Seq<Binding>, prefix: Seq<char>)
    ensures
        forall|i: int|
            0 <= i < without_prefix(bindings, prefix).len() ==> (#[trigger] without_prefix(
                bindings,
                prefix,
            )[i]).0 != prefix,
        forall|i: int|
            0 <= i < without_prefix(bindings, prefix).len() ==> exists|j: int|
                0 <= j < bindings.len() && bindings[j] == #[trigger] without_prefix(
                    bindings,
                    prefix,
                )[i],
        well_formed_bindings(bindings) ==> well_formed_bindings(without_prefix(bindings, prefix)),
        forall|other: Seq<char>|
            other != prefix ==> #[trigger] lookup(without_prefix(bindings, prefix), other)
                == lookup(bindings, other),
        lookup(without_prefix(bindings, prefix), prefix) is None,
    decreases bindings.len(),
{
    if bindings.len() > 0 {
        let front = bindings.drop_last();
        let last = bindings.last();
        lemma_without_prefix(front, prefix);
        let rest = without_prefix(front, prefix);
        if last.0 != prefix {
            assert(rest.push(last).drop_last() =~= rest);
        }
        assert forall|other: Seq<char>| other != prefix implies #[trigger] lookup(
            without_prefix(bindings, prefix),
            other,
        ) == lookup(bindings, other) by {
            assert(lookup(rest, other) == lookup(front, other));
        }
        assert(lookup(rest, prefix) is None);
        assert forall|i: int|
            0 <= i < without_prefix(bindings, prefix).len() implies exists|j: int|
                0 <= j < bindings.len() && bindings[j] == #[trigger] without_prefix(
                    bindings,
                    prefix,
                )[i] by {
            if i < rest.len() {
                let j = choose|j: int| 0 <= j < front.len() && front[j] == rest[i];
                assert(bindings[j] == front[j]);
            } else {
                assert(bindings[bindings.len() - 1] == last);
            }
        }
        if well_formed_bindings(bindings) {
            assert(well_formed_bindings(front)) by {
                assert forall|i: int, j: int|
                    0 <= i < j < front.len() implies (#[trigger] front[i]).0 != (
                    #[trigger] front[j]).0 by {
                    assert(front[i] == bindings[i] && front[j] == bindings[j]);
                }
                assert forall|i: int| 0 <= i < front.len() implies (#[trigger] front[i]).0.len()
                    > 0 && front[i].0 != xml_prefix() by {
                    assert(front[i] == bindings[i]);
                }
            }
            let out = without_prefix(bindings, prefix);
            assert forall|i: int, j: int|
                0 <= i < j < out.len() implies (#[trigger] out[i]).0 != (#[trigger] out[j]).0 by {
                if j < rest.len() {
                } else {
                    let k = choose|k: int| 0 <= k < front.len() && front[k] == rest[i];
                    assert(front[k] == bindings[k]);
                    assert(bindings[bindings.len() - 1] == last);
                }
            }
            assert forall|i: int| 0 <= i < out.len() implies (#[trigger] out[i]).0.len() > 0
                && out[i].0 != xml_prefix() by {
                if i < rest.len() {
                } else {
                    assert(bindings[bindings.len() - 1] == last);
                }
            }
        }
    }
}

/// Whatever `entries` bind, each prefix is bound once, and none is
/// empty or `xml`.
pub proof fn law_bound_prefixes_are_distinct_and_valid(entries: Seq<Seq<char>>)
    requires
        bind_all(entries) is Ok,
    ensures
        well_formed_bindings(bind_all(entries)->Ok_0),
    decreases entries.len(),
{
    if entries.len() > 0 {
        let earlier = bind_all(entries.drop_last())->Ok_0;
        let binding = check_binding(entries.last())->Ok_0;
        law_bound_prefixes_are_distinct_and_valid(entries.drop_last());
        lemma_without_prefix(earlier, binding.0);
        let kept = without_prefix(earlier, binding.0);
        let out = kept.push(binding);
        assert(out == bind_all(entries)->Ok_0);
        assert forall|i: int, j: int|
            0 <= i < j < out.len() implies (#[trigger] out[i]).0 != (#[trigger] out[j]).0 by {
            if j < kept.len() {
                assert(out[i] == kept[i] && out[j] == kept[j]);
            } else {
                assert(out[i] == kept[i]);
            }
        }
        assert forall|i: int| 0 <= i < out.len() implies (#[trigger] out[i]).0.len() > 0
            && out[i].0 != xml_prefix() by {
            if i < kept.len() {
                assert(out[i] == kept[i]);
            }
        }
    }
}

/// Later bindings win: the URI a prefix ends up bound to is the one
/// its last entry gives, and a prefix no entry binds stays unbound.
pub proof fn law_later_bindings_win(entries: Seq<Seq<char>>, prefix: Seq<char>)
    requires
        bind_all(entries) is Ok,
    ensures
        lookup(bind_all(entries)->Ok_0, prefix) == last_binding(entries, prefix),
    decreases entries.len(),
{
    if entries.len() > 0 {
        let earlier = bind_all(entries.drop_last())->Ok_0;
        let binding = check_binding(entries.last())->Ok_0;
        law_later_bindings_win(entries.drop_last(), prefix);
        lemma_without_prefix(earlier, binding.0);
        let out = without_prefix(earlier, binding.0).push(binding);
        assert(out.drop_last() =~= without_prefix(earlier, binding.0));
        if binding.0 != prefix {
            assert(lookup(without_prefix(earlier, binding.0), prefix) == lookup(earlier, prefix));
        }
    }
}

/// The entries are refused exactly when one of them binds nothing, and
/// then the error is that of the first such entry.
pub proof fn law_first_bad_entry_is_reported(entries: Seq<Seq<char>>)
    ensures
        bind_all(entries) is Ok <==> forall|i: int|
            0 <= i < entries.len() ==> #[trigger] check_binding(entries[i]) is Ok,
        bind_all(entries) is Err ==> exists|i: int|
            0 <= i < entries.len() && #[trigger] check_binding(entries[i])
                == Err::<Binding, Seq<char>>(bind_all(entries)->Err_0) && forall|j: int|
                0 <= j < i ==> #[trigger] check_binding(entries[j]) is Ok,
    decreases entries.len(),
{
    if entries.len() > 0 {
        let front = entries.drop_last();
        law_first_bad_entry_is_reported(front);
        assert forall|i: int| 0 <= i < front.len() implies #[trigger] front[i] == entries[i] by {}
        if bind_all(front) is Err {
            let i = choose|i: int|
                0 <= i < front.len() && #[trigger] check_binding(front[i])
                    == Err::<Binding, Seq<char>>(bind_all(front)->Err_0) && forall|j: int|
                    0 <= j < i ==> #[trigger] check_binding(front[j]) is Ok;
            assert(check_binding(entries[i]) == check_binding(front[i]));
            assert forall|j: int| 0 <= j < i implies #[trigger] check_binding(entries[j]) is Ok by {
                assert(front[j] == entries[j]);
            }
        } else {
            assert forall|j: int| 0 <= j < entries.len() - 1 implies #[trigger] check_binding(
                entries[j],
            ) is Ok by {
                assert(front[j] == entries[j]);
            }
            if check_binding(entries.last()) is Err {
                assert(check_binding(entries[entries.len() - 1]) is Err);
            }
        }
    }
}

/// The bindings `entries` make when read after `earlier` ones.
pub open spec fn bind_after(earlier: Seq<Binding>, entries: Seq<Seq<char>>) -> Result<
    Seq<Binding>,
    Seq<char>,
>
    decreases entries.len(),
{
    if entries.len() == 0 {
        Ok(earlier)
    } else {
        match bind_after(earlier, entries.drop_last()) {
            Err(message) => Err(message),
            Ok(before) => match check_binding(entries.last()) {
                Err(message) => Err(message),
                Ok(binding) => Ok(without_prefix(before, binding.0).push(binding)),
            },
        }
    }
}

/// `bindings` with the bindings of every prefix in `prefixes` taken out.
pub open spec fn without_prefixes(bindings: Seq<Binding>, prefixes: Seq<Seq<char>>) -> Seq<Binding>
    decreases prefixes.len(),
{
    if prefixes.len() == 0 {
        bindings
    } else {
        without_prefix(without_prefixes(bindings, prefixes.drop_last()), prefixes.last())
    }
}

/// The prefixes `entries` bind, in order, assuming each entry binds.
pub open spec fn bound_prefixes(entries: Seq<Seq<char>>) -> Seq<Seq<char>>
    decreases entries.len(),
{
    if entries.len() == 0 {
        Seq::empty()
    } else {
        bound_prefixes(entries.drop_last()).push(check_binding(entries.last())->Ok_0.0)
    }
}

proof fn lemma_without_prefix_append(a: Seq<Binding>, b: Seq<Binding>, prefix: Seq<char>)
    ensures
        without_prefix(a + b, prefix) == without_prefix(a, prefix) + without_prefix(b, prefix),
    decreases b.len(),
{
    if b.len() == 0 {
        assert(a + b =~= a);
        assert(without_prefix(a, prefix) + without_prefix(b, prefix) =~= without_prefix(a, prefix));
    } else {
        assert((a + b).drop_last() =~= a + b.drop_last());
        assert((a + b).last() == b.last());
        lemma_without_prefix_append(a, b.drop_last(), prefix);
        if b.last().0 != prefix {
            assert(without_prefix(a, prefix) + without_prefix(b.drop_last(), prefix).push(b.last())
                =~= (without_prefix(a, prefix) + without_prefix(b.drop_last(), prefix)).push(
                b.last(),
            ));
        }
    }
}

proof fn lemma_bind_all_append(first: Seq<Seq<char>>, second: Seq<Seq<char>>)
    requires
        bind_all(first) is Ok,
    ensures
        bind_all(first + second) == bind_after(bind_all(first)->Ok_0, second),
    decreases second.len(),
{
    if second.len() == 0 {
        assert(first + second =~= first);
    } else {
        assert((first + second).drop_last() =~= first + second.drop_last());
        assert((first + second).last() == second.last());
        lemma_bind_all_append(first, second.drop_last());
    }
}

/// Reading entries that all bind after `earlier` leaves of `earlier`
/// only the prefixes the entries do not bind, in front of what the
/// entries alone make.
proof fn lemma_bind_after(earlier: Seq<Binding>, entries: Seq<Seq<char>>)
    requires
        bind_all(entries) is Ok,
    ensures
        bind_after(earlier, entries) == Ok::<Seq<Binding>, Seq<char>>(
            without_prefixes(earlier, bound_prefixes(entries)) + bind_all(entries)->Ok_0,
        ),
    decreases entries.len(),
{
    if entries.len() == 0 {
        assert(without_prefixes(earlier, bound_prefixes(entries)) + bind_all(entries)->Ok_0
            =~= earlier);
    } else {
        let front = entries.drop_last();
        law_first_bad_entry_is_reported(entries);
        law_first_bad_entry_is_reported(front);
        assert forall|i: int| 0 <= i < front.len() implies #[trigger] check_binding(front[i]) is Ok by {
            assert(front[i] == entries[i]);
        }
        assert(check_binding(entries[entries.len() - 1]) is Ok);
        lemma_bind_after(earlier, front);
        let binding = check_binding(entries.last())->Ok_0;
        let kept = without_prefixes(earlier, bound_prefixes(front));
        let made = bind_all(front)->Ok_0;
        lemma_without_prefix_append(kept, made, binding.0);
        assert(bound_prefixes(entries).drop_last() =~= bound_prefixes(front));
        assert((without_prefix(kept, binding.0) + without_prefix(made, binding.0)).push(binding)
            =~= without_prefix(kept, binding.0) + without_prefix(made, binding.0).push(binding));
    }
}

proof fn lemma_without_prefixes_members(bindings: Seq<Binding>, prefixes: Seq<Seq<char>>)
    ensures
        forall|i: int|
            0 <= i < without_prefixes(bindings, prefixes).len() ==> !prefixes.contains(
                (#[trigger] without_prefixes(bindings, prefixes)[i]).0,
            ) && bindings.contains(without_prefixes(bindings, prefixes)[i]),
    decreases prefixes.len(),
{
    if prefixes.len() > 0 {
        let front = prefixes.drop_last();
        let inner = without_prefixes(bindings, front);
        lemma_without_prefixes_members(bindings, front);
        lemma_without_prefix(inner, prefixes.last());
        let out = without_prefixes(bindings, prefixes);
        assert forall|i: int| 0 <= i < out.len() implies !prefixes.contains(
            (#[trigger] out[i]).0,
        ) && bindings.contains(out[i]) by {
            let j = choose|j: int| 0 <= j < inner.len() && inner[j] == out[i];
            assert(!front.contains(inner[j].0));
            assert(out[i].0 != prefixes.last());
            if prefixes.contains(out[i].0) {
                let k = choose|k: int| 0 <= k < prefixes.len() && prefixes[k] == out[i].0;
                if k < prefixes.len() - 1 {
                    assert(front[k] == prefixes[k]);
                }
            }
        }
    }
}

/// Every prefix that `entries` bind is one of their bound prefixes.
proof fn lemma_bound_prefixes_cover(entries: Seq<Seq<char>>)
    requires
        bind_all(entries) is Ok,
    ensures
        forall|i: int|
            0 <= i < bind_all(entries)->Ok_0.len() ==> bound_prefixes(entries).contains(
                (#[trigger] bind_all(entries)->Ok_0[i]).0,
            ),
    decreases entries.len(),
{
    if entries.len() > 0 {
        let front = entries.drop_last();
        let earlier = bind_all(front)->Ok_0;
        let binding = check_binding(entries.last())->Ok_0;
        lemma_bound_prefixes_cover(front);
        lemma_without_prefix(earlier, binding.0);
        let kept = without_prefix(earlier, binding.0);
        let out = bind_all(entries)->Ok_0;
        let prefixes = bound_prefixes(entries);
        assert(prefixes == bound_prefixes(front).push(binding.0));
        assert forall|i: int| 0 <= i < out.len() implies prefixes.contains(
            (#[trigger] out[i]).0,
        ) by {
            if i < kept.len() {
                let j = choose|j: int| 0 <= j < earlier.len() && earlier[j] == kept[i];
                assert(out[i] == kept[i]);
                assert(bound_prefixes(front).contains(earlier[j].0));
                let k = choose|k: int|
                    0 <= k < bound_prefixes(front).len() && bound_prefixes(front)[k]
                        == earlier[j].0;
                assert(prefixes[k] == bound_prefixes(front)[k]);
            } else {
                assert(prefixes[prefixes.len() - 1] == binding.0);
            }
        }
    }
}

/// Repeating the whole list of entries changes nothing: the same
/// bindings in the same order, or the same error.
pub proof fn law_repeating_the_entries_changes_nothing(entries: Seq<Seq<char>>)
    ensures
        bind_all(entries + entries) == bind_all(entries),
{
    if bind_all(entries) is Err {
        assert((entries + entries).take(entries.len() as int) =~= entries);
        lemma_error_persists(entries + entries, entries.len() as int);
    } else {
        let made = bind_all(entries)->Ok_0;
        lemma_bind_all_append(entries, entries);
        lemma_bind_after(made, entries);
        lemma_bound_prefixes_cover(entries);
        lemma_without_prefixes_members(made, bound_prefixes(entries));
        let kept = without_prefixes(made, bound_prefixes(entries));
        if kept.len() > 0 {
            let j = choose|j: int| 0 <= j < made.len() && made[j] == kept[0];
            assert(bound_prefixes(entries).contains(made[j].0));
        }
        assert(kept + made =~= made);
    }
}

proof fn lemma_first_equals_exists(entry: Seq<char>, j: int)
    requires
        0 <= j < entry.len(),
        entry[j] == '=',
    ensures
        exists|k: int| is_first_equals(entry, k),
    decreases j,
{
    if forall|i: int| 0 <= i < j ==> entry[i] != '=' {
        assert(is_first_equals(entry, j));
    } else {
        let i = choose|i: int| 0 <= i < j && entry[i] == '=';
        lemma_first_equals_exists(entry, i);
    }
}

proof fn lemma_first_equals_unique(entry: Seq<char>, k: int)
    requires
        is_first_equals(entry, k),
    ensures
        (choose|c: int| is_first_equals(entry, c)) == k,
{
    let c = choose|c: int| is_first_equals(entry, c);
    if c < k {
        assert(entry[c] != '=');
    } else if c > k {
        assert(entry[k] != '=');
    }
}

/// An entry is split at its first `=`: what it binds is the prefix
/// before that `=` and the URI after it, which together with the `=`
/// are the whole entry, and the prefix holds no `=`. An entry without
/// `=`, one starting with `=`, and one starting with `xml=` are refused,
/// each with its own message; every other entry binds.
pub proof fn law_an_entry_splits_at_its_first_equals(entry: Seq<char>)
    ensures
        check_binding(entry) is Ok ==> entry =~= check_binding(entry)->Ok_0.0 + seq!['=']
            + check_binding(entry)->Ok_0.1,
        check_binding(entry) is Ok ==> forall|j: int|
            0 <= j < check_binding(entry)->Ok_0.0.len() ==> check_binding(entry)->Ok_0.0[j]
                != '=',
        check_binding(entry) is Ok ==> check_binding(entry)->Ok_0.0.len() > 0
            && check_binding(entry)->Ok_0.0 != seq!['x', 'm', 'l'],
        (forall|j: int| 0 <= j < entry.len() ==> entry[j] != '=') ==> check_binding(entry)
            == Err::<Binding, Seq<char>>(
            "`"@ + entry + "` is not a namespace binding; write PREFIX=URI"@,
        ),
        entry.len() > 0 && entry[0] == '=' ==> check_binding(entry) == Err::<Binding, Seq<char>>(
            "a namespace binding needs a prefix"@,
        ),
        entry.len() >= 4 && entry.take(4) == seq!['x', 'm', 'l', '='] ==> check_binding(entry)
            == Err::<Binding, Seq<char>>(
            "`xml` is bound by the specification and may not be rebound"@,
        ),
        (exists|j: int| 0 <= j < entry.len() && entry[j] == '=') && entry[0] != '=' && !(
        entry.len() >= 4 && entry.take(4) == seq!['x', 'm', 'l', '=']) ==> check_binding(entry) is Ok,
{
    if exists|j: int| 0 <= j < entry.len() && entry[j] == '=' {
        let j = choose|j: int| 0 <= j < entry.len() && entry[j] == '=';
        lemma_first_equals_exists(entry, j);
        let k = choose|c: int| is_first_equals(entry, c);
        assert(is_first_equals(entry, k));
        let prefix = entry.take(k);
        let uri = entry.skip(k + 1);
        assert(entry =~= prefix + seq!['='] + uri);
        if entry[0] == '=' {
            assert(is_first_equals(entry, 0));
            lemma_first_equals_unique(entry, 0);
        }
        if entry.len() >= 4 && entry.take(4) == seq!['x', 'm', 'l', '='] {
            assert(entry[0] == 'x' && entry[1] == 'm' && entry[2] == 'l' && entry[3] == '=');
            assert(is_first_equals(entry, 3));
            lemma_first_equals_unique(entry, 3);
            assert(prefix =~= seq!['x', 'm', 'l']);
        }
        if prefix == seq!['x', 'm', 'l'] {
            assert(k == 3);
            assert(entry.take(4) =~= seq!['x', 'm', 'l', '=']);
        }
    } else {
        assert(!exists|k: int| is_first_equals(entry, k));
    }
}

proof fn lemma_lookup_found(bindings: Seq<Binding>, prefix: Seq<char>)
    requires
        lookup(bindings, prefix) is Some,
    ensures
        bindings.contains((prefix, lookup(bindings, prefix)->0)),
    decreases bindings.len(),
{
    if bindings.last().0 == prefix {
        assert(bindings[bindings.len() - 1] == (prefix, bindings.last().1));
    } else {
        lemma_lookup_found(bindings.drop_last(), prefix);
        let i = choose|i: int|
            0 <= i < bindings.drop_last().len() && bindings.drop_last()[i] == (
                prefix,
                lookup(bindings, prefix)->0,
            );
        assert(bindings[i] == bindings.drop_last()[i]);
    }
}

proof fn lemma_last_binding_at(entries: Seq<Seq<char>>, k: int)
    requires
        0 <= k < entries.len(),
        forall|i: int| 0 <= i < entries.len() ==> #[trigger] check_binding(entries[i]) is Ok,
        forall|j: int|
            k < j < entries.len() ==> (#[trigger] check_binding(entries[j]))->Ok_0.0
                != check_binding(entries[k])->Ok_0.0,
    ensures
        last_binding(entries, check_binding(entries[k])->Ok_0.0) == Some(
            check_binding(entries[k])->Ok_0.1,
        ),
    decreases entries.len(),
{
    let last = entries.len() - 1;
    assert(check_binding(entries[last]) is Ok);
    if k < last {
        let front = entries.drop_last();
        assert(front[k] == entries[k]);
        assert forall|i: int| 0 <= i < front.len() implies #[trigger] check_binding(front[i]) is Ok by {
            assert(front[i] == entries[i]);
        }
        assert forall|j: int| k < j < front.len() implies (#[trigger] check_binding(
            front[j],
        ))->Ok_0.0 != check_binding(front[k])->Ok_0.0 by {
            assert(front[j] == entries[j]);
        }
        lemma_last_binding_at(front, k);
        assert(check_binding(entries[last])->Ok_0.0 != check_binding(entries[k])->Ok_0.0);
    }
}

/// An entry whose prefix no later entry binds again is in the result,
/// exactly as it binds.
pub proof fn law_the_last_binding_of_each_prefix_is_kept(entries: Seq<Seq<char>>, k: int)
    requires
        bind_all(entries) is Ok,
        0 <= k < entries.len(),
        forall|j: int|
            k < j < entries.len() ==> (#[trigger] check_binding(entries[j]))->Ok_0.0
                != check_binding(entries[k])->Ok_0.0,
    ensures
        check_binding(entries[k]) is Ok,
        bind_all(entries)->Ok_0.contains(check_binding(entries[k])->Ok_0),
{
    law_first_bad_entry_is_reported(entries);
    let binding = check_binding(entries[k])->Ok_0;
    lemma_last_binding_at(entries, k);
    law_later_bindings_win(entries, binding.0);
    lemma_lookup_found(bind_all(entries)->Ok_0, binding.0);
}

} // verus!
