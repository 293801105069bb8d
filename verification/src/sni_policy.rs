//! Which server names the TLS fallback answers to.

use vstd::prelude::*;

use crate::hostname::{check_no_empty_label, normalize_name};
use crate::text::{chars_of, to_ascii_lower};

verus! {

/// The normal form of a server name that an operator allows, or the message
/// that refuses it.
pub open spec fn allowed_name(value: Seq<char>) -> Result<Seq<char>, Seq<char>> {
    if !(1 <= value.len() <= crate::hostname::MAX_HOSTNAME_LEN) || !vstd::utf8::is_ascii_chars(
        value,
    ) {
        Err("allowed SNI must be a non-empty ASCII hostname"@)
    } else if !crate::hostname::valid_labels(crate::hostname::canonical(value)) {
        Err("allowed SNI is not a valid DNS hostname"@)
    } else {
        Ok(crate::hostname::canonical(value))
    }
}

/// The normal form of a server name that an operator allows.
pub fn parse_allowed_sni(value: &str) -> (name: Result<String, String>)
    ensures
        match name {
            Ok(n) => allowed_name(value@) == Ok::<Seq<char>, Seq<char>>(n@),
            Err(message) => allowed_name(value@) == Err::<Seq<char>, Seq<char>>(message@),
        },
{
    if let Some(name) = normalize_name(value) {
        return Ok(name);
    }
    let chars = chars_of(value);
    if chars.len() == 0 || chars.len() > crate::hostname::MAX_HOSTNAME_LEN || !value.is_ascii() {
        Err("allowed SNI must be a non-empty ASCII hostname".to_string())
    } else {
        Err("allowed SNI is not a valid DNS hostname".to_string())
    }
}

/// What an operator may allow is what a ClientHello may ask for.
pub proof fn law_allowed_names_are_server_names(value: Seq<char>)
    ensures
        match allowed_name(value) {
            Ok(name) => crate::hostname::normalized_name(value) == Some(name),
            Err(_) => crate::hostname::normalized_name(value) is None,
        },
{
}

/// `a` comes before `b` in the order of character codes, from place `i` on.
pub open spec fn before(a: Seq<char>, b: Seq<char>, i: int) -> bool
    decreases b.len() - i,
{
    if i >= b.len() {
        false
    } else if i >= a.len() {
        true
    } else if a[i] != b[i] {
        a[i] < b[i]
    } else {
        before(a, b, i + 1)
    }
}

/// In strictly rising order, so that nothing occurs twice.
pub open spec fn rising(names: Seq<Seq<char>>) -> bool {
    forall|i: int, j: int|
        0 <= i < j < names.len() ==> before(#[trigger] names[i], #[trigger] names[j], 0)
}

/// The same name, whatever the case.
pub open spec fn same_name(a: Seq<char>, b: Seq<char>) -> bool {
    crate::text::ascii_lowercase(a) == crate::text::ascii_lowercase(b)
}

/// The end of `name`, as long as `domain`.
pub open spec fn end_of(name: Seq<char>, domain: Seq<char>) -> Seq<char> {
    name.skip(name.len() - domain.len())
}

/// `name` is `domain` with one or more labels and a dot before it, and none of
/// its labels is empty.
pub open spec fn subdomain(name: Seq<char>, domain: Seq<char>) -> bool {
    &&& crate::hostname::no_empty_label(name)
    &&& name.len() > domain.len() + 1
    &&& name[name.len() - domain.len() - 1] == '.'
    &&& same_name(end_of(name, domain), domain)
}

/// A policy over views: the names in rising order, and whether their
/// subdomains are allowed too.
#[verifier::ext_equal]
pub struct PolicyView {
    pub exact: Seq<Seq<char>>,
    pub allow_subdomains: bool,
}

/// A policy allows a name that is given, if it is one of the policy's or, where
/// that is allowed, a proper subdomain of one.
pub open spec fn policy_allows(policy: PolicyView, candidate: Option<Seq<char>>) -> bool {
    match candidate {
        Some(name) => exists|i: int|
            0 <= i < policy.exact.len() && (same_name(name, #[trigger] policy.exact[i]) || (
            policy.allow_subdomains && subdomain(name, policy.exact[i]))),
        None => false,
    }
}

/// Which server names are allowed.
#[derive(Debug)]
pub struct SniPolicy {
    exact: Vec<Vec<char>>,
    allow_subdomains: bool,
}

/// The names in a vector, as texts.
pub open spec fn texts(names: Seq<Vec<char>>) -> Seq<Seq<char>> {
    names.map_values(|name: Vec<char>| name@)
}

/// The names that a policy is made of, as texts.
pub open spec fn given(names: Seq<String>) -> Seq<Seq<char>> {
    names.map_values(|name: String| name@)
}

impl View for SniPolicy {
    type V = PolicyView;

    closed spec fn view(&self) -> PolicyView {
        PolicyView { exact: texts(self.exact@), allow_subdomains: self.allow_subdomains }
    }
}

proof fn lemma_before_irreflexive(a: Seq<char>, i: int)
    requires
        0 <= i,
    ensures
        !before(a, a, i),
    decreases a.len() - i,
{
    if i < a.len() {
        lemma_before_irreflexive(a, i + 1);
    }
}

proof fn lemma_before_transitive(a: Seq<char>, b: Seq<char>, c: Seq<char>, i: int)
    requires
        0 <= i,
        before(a, b, i),
        before(b, c, i),
    ensures
        before(a, c, i),
    decreases c.len() - i,
{
    if i < a.len() && i < b.len() && i < c.len() && a[i] == b[i] && b[i] == c[i] {
        lemma_before_transitive(a, b, c, i + 1);
    }
}

/// Whether one text comes before another, after it, or is it.
enum Place {
    Before,
    Same,
    After,
}

fn place_of(a: &[char], b: &[char]) -> (place: Place)
    ensures
        match place {
            Place::Before => before(a@, b@, 0),
            Place::Same => a@ == b@,
            Place::After => before(b@, a@, 0),
        },
{
    let mut i: usize = 0;
    while i < a.len() && i < b.len() && a[i] == b[i]
        invariant
            i <= a@.len(),
            i <= b@.len(),
            forall|j: int| 0 <= j < i ==> #[trigger] a@[j] == b@[j],
            before(a@, b@, 0) == before(a@, b@, i as int),
            before(b@, a@, 0) == before(b@, a@, i as int),
        decreases a@.len() - i,
    {
        i += 1;
    }
    if i == a.len() {
        if i == b.len() {
            assert(a@ =~= b@);
            Place::Same
        } else {
            Place::Before
        }
    } else if i == b.len() {
        Place::After
    } else if a[i] < b[i] {
        Place::Before
    } else {
        Place::After
    }
}

/// Puts a name into its place, unless it is there.
fn insert_name(names: &mut Vec<Vec<char>>, name: Vec<char>)
    requires
        rising(texts(old(names)@)),
    ensures
        rising(texts(final(names)@)),
        forall|n: Seq<char>| #[trigger]
            texts(final(names)@).contains(n) <==> texts(old(names)@).contains(n) || n == name@,
{
    let ghost before_names = texts(names@);
    let ghost new = name@;
    let mut at: usize = 0;
    while at < names.len()
        invariant
            at <= names@.len(),
            new == name@,
            names@ == old(names)@,
            before_names == texts(names@),
            rising(before_names),
            forall|i: int| 0 <= i < at ==> before(#[trigger] before_names[i], new, 0),
        decreases names@.len() - at,
    {
        match place_of(names[at].as_slice(), name.as_slice()) {
            Place::Before => {
                assert(before_names[at as int] == names@[at as int]@);
                at += 1;
            },
            Place::Same => {
                assert(before_names[at as int] == new);
                return;
            },
            Place::After => {
                proof {
                    lemma_rising_insert(before_names, at as int, new);
                }
                names.insert(at, name);
                assert(texts(names@) =~= before_names.insert(at as int, new));
                return;
            },
        }
    }
    proof {
        lemma_rising_insert(before_names, at as int, new);
    }
    names.insert(at, name);
    assert(texts(names@) =~= before_names.insert(at as int, new));
}

proof fn lemma_rising_insert(names: Seq<Seq<char>>, at: int, new: Seq<char>)
    requires
        rising(names),
        0 <= at <= names.len(),
        forall|i: int| 0 <= i < at ==> before(#[trigger] names[i], new, 0),
        at < names.len() ==> before(new, names[at], 0),
    ensures
        rising(names.insert(at, new)),
        forall|n: Seq<char>| #[trigger]
            names.insert(at, new).contains(n) <==> names.contains(n) || n == new,
{
    let after = names.insert(at, new);
    assert forall|i: int, j: int| 0 <= i < j < after.len() implies before(
        #[trigger] after[i],
        #[trigger] after[j],
        0,
    ) by {
        if j == at {
            assert(after[i] == names[i]);
        } else if i == at {
            assert(after[j] == names[j - 1]);
            if j - 1 > at {
                assert(before(names[at], names[j - 1], 0));
                lemma_before_transitive(new, names[at], names[j - 1], 0);
            }
        } else {
            let a = if i < at { i } else { i - 1 };
            let b = if j < at { j } else { j - 1 };
            assert(after[i] == names[a]);
            assert(after[j] == names[b]);
        }
    }
    assert forall|n: Seq<char>| #[trigger] after.contains(n) <==> names.contains(n) || n == new by {
        if names.contains(n) {
            let i = choose|i: int| 0 <= i < names.len() && names[i] == n;
            assert(after[if i < at { i } else { i + 1 }] == n);
        }
        assert(after[at] == new);
        if after.contains(n) && n != new {
            let i = choose|i: int| 0 <= i < after.len() && after[i] == n;
            assert(names[if i < at { i } else { i - 1 }] == n);
        }
    }
}

impl SniPolicy {
    /// A policy for these names, each kept once.
    pub fn new(exact: Vec<String>, allow_subdomains: bool) -> (policy: Self)
        ensures
            rising(policy@.exact),
            forall|name: Seq<char>| #[trigger]
                policy@.exact.contains(name) <==> given(exact@).contains(name),
            policy@.allow_subdomains == allow_subdomains,
    {
        let mut names: Vec<Vec<char>> = Vec::new();
        let mut i: usize = 0;
        assert(texts(names@) =~= Seq::empty());
        while i < exact.len()
            invariant
                i <= exact@.len(),
                rising(texts(names@)),
                forall|name: Seq<char>| #[trigger]
                    texts(names@).contains(name) <==> given(exact@.take(i as int)).contains(name),
            decreases exact@.len() - i,
        {
            let ghost before_names = texts(names@);
            let ghost had = given(exact@.take(i as int));
            let ghost has = given(exact@.take(i + 1));
            insert_name(&mut names, chars_of(exact[i].as_str()));
            proof {
                let new = exact@[i as int]@;
                assert(has =~= had.push(new));
                assert forall|name: Seq<char>| #[trigger] texts(names@).contains(name)
                    <==> has.contains(name) by {
                    assert(before_names.contains(name) <==> had.contains(name));
                    if had.contains(name) {
                        let k = choose|k: int| 0 <= k < had.len() && had[k] == name;
                        assert(has[k] == name);
                    }
                    if has.contains(name) {
                        let k = choose|k: int| 0 <= k < has.len() && has[k] == name;
                        if k < had.len() {
                            assert(had[k] == name);
                        }
                    }
                    assert(has[i as int] == new);
                }
            }
            i += 1;
        }
        assert(exact@.take(i as int) =~= exact@);
        SniPolicy { exact: names, allow_subdomains }
    }

    /// Whether the name that a client asks for is allowed.
    pub fn allows(&self, candidate: Option<&str>) -> (allowed: bool)
        ensures
            allowed == policy_allows(
                self@,
                match candidate {
                    Some(name) => Some(name@),
                    None => None,
                },
            ),
    {
        let name = match candidate {
            Some(name) => chars_of(name),
            None => return false,
        };
        let subdomains = self.allow_subdomains && check_no_empty_label(name.as_slice());
        let mut i: usize = 0;
        while i < self.exact.len()
            invariant
                i <= self.exact@.len(),
                subdomains == (self@.allow_subdomains && crate::hostname::no_empty_label(name@)),
                candidate matches Some(asked) && asked@ == name@,
                forall|j: int|
                    0 <= j < i ==> !(same_name(name@, #[trigger] self@.exact[j]) || (
                    self@.allow_subdomains && subdomain(name@, self@.exact[j]))),
            decreases self.exact@.len() - i,
        {
            let domain = &self.exact[i];
            assert(domain@ == self@.exact[i as int]);
            if same_from(name.as_slice(), 0, domain.as_slice()) {
                assert(name@.skip(0) =~= name@);
                return true;
            }
            assert(name@.skip(0) =~= name@);
            if subdomains && name.len() > domain.len() && name.len() - domain.len() > 1 {
                let start = name.len() - domain.len();
                if name[start - 1] == '.' && same_from(name.as_slice(), start, domain.as_slice()) {
                    return true;
                }
            }
            i += 1;
        }
        false
    }
}

/// Whether the end of a name from a place on is a domain, whatever the case.
fn same_from(name: &[char], start: usize, domain: &[char]) -> (same: bool)
    requires
        start <= name@.len(),
    ensures
        same == same_name(name@.skip(start as int), domain@),
{
    let ghost end = name@.skip(start as int);
    let ghost end_lower = crate::text::ascii_lowercase(end);
    let ghost domain_lower = crate::text::ascii_lowercase(domain@);
    if name.len() - start != domain.len() {
        assert(end_lower.len() != domain_lower.len());
        return false;
    }
    let mut i: usize = 0;
    while i < domain.len()
        invariant
            start + domain@.len() == name@.len() <= usize::MAX,
            i <= domain@.len(),
            end == name@.skip(start as int),
            end_lower == crate::text::ascii_lowercase(end),
            domain_lower == crate::text::ascii_lowercase(domain@),
            forall|j: int| 0 <= j < i ==> #[trigger] end_lower[j] == domain_lower[j],
        decreases domain@.len() - i,
    {
        assert(end_lower[i as int] == crate::text::ascii_lower(name@[start + i]));
        assert(domain_lower[i as int] == crate::text::ascii_lower(domain@[i as int]));
        if to_ascii_lower(name[start + i]) != to_ascii_lower(domain[i]) {
            return false;
        }
        i += 1;
    }
    assert(end_lower =~= domain_lower);
    true
}

/// A policy without subdomains allows exactly its names, whatever the case.
pub proof fn law_exact_by_default(policy: PolicyView, name: Seq<char>)
    requires
        !policy.allow_subdomains,
    ensures
        policy_allows(policy, Some(name)) <==> exists|i: int|
            0 <= i < policy.exact.len() && same_name(name, #[trigger] policy.exact[i]),
        !policy_allows(policy, None),
{
}

/// A subdomain is a name without empty labels that is the domain with something
/// and a dot before it, whatever the case; a name that merely ends in the
/// domain's letters is not one, nor is the domain with nothing but a dot before
/// it.
pub proof fn law_subdomains_end_at_a_dot(name: Seq<char>, domain: Seq<char>)
    ensures
        subdomain(name, domain) <==> crate::hostname::no_empty_label(name)
            && exists|prefix: Seq<char>|
            prefix.len() > 0 && same_name(name, #[trigger] prefix.push('.') + domain),
{
    let lower = crate::text::ascii_lowercase(name);
    if subdomain(name, domain) {
        let n = name.len() - domain.len() - 1;
        let prefix = name.take(n);
        let whole = prefix.push('.') + domain;
        let end = crate::text::ascii_lowercase(end_of(name, domain));
        assert(end == crate::text::ascii_lowercase(domain));
        assert forall|i: int| 0 <= i < whole.len() implies lower[i]
            == #[trigger] crate::text::ascii_lowercase(whole)[i] by {
            if i > n {
                assert(lower[i] == end[i - n - 1]);
            }
        }
        assert(lower =~= crate::text::ascii_lowercase(whole));
    }
    if crate::hostname::no_empty_label(name) && exists|prefix: Seq<char>|
        prefix.len() > 0 && same_name(name, #[trigger] prefix.push('.') + domain) {
        let prefix = choose|prefix: Seq<char>|
            prefix.len() > 0 && same_name(name, #[trigger] prefix.push('.') + domain);
        let whole = prefix.push('.') + domain;
        let n = prefix.len() as int;
        assert(lower.len() == name.len());
        assert(crate::text::ascii_lowercase(whole).len() == whole.len());
        assert(lower[n] == crate::text::ascii_lower(name[n]));
        assert(crate::text::ascii_lowercase(whole)[n] == crate::text::ascii_lower('.'));
        let end = end_of(name, domain);
        assert forall|i: int| 0 <= i < domain.len() implies #[trigger] crate::text::ascii_lowercase(
            end,
        )[i] == crate::text::ascii_lowercase(domain)[i] by {
            assert(lower[n + 1 + i] == crate::text::ascii_lowercase(whole)[n + 1 + i]);
        }
        assert(crate::text::ascii_lowercase(end) =~= crate::text::ascii_lowercase(domain));
    }
}

/// A policy holds each of its names once.
pub proof fn law_rising_has_no_duplicates(names: Seq<Seq<char>>)
    requires
        rising(names),
    ensures
        names.no_duplicates(),
{
    assert forall|i: int, j: int| 0 <= i < j < names.len() implies names[i] != names[j] by {
        if names[i] == names[j] {
            lemma_before_irreflexive(names[i], 0);
        }
    }
}

/// Two names with the same letters, digits and signs, whatever the case.
pub open spec fn alike(a: Seq<char>, b: Seq<char>) -> bool {
    &&& a.len() == b.len()
    &&& forall|i: int|
        0 <= i < a.len() ==> crate::hostname_laws::small(#[trigger] a[i])
            == crate::hostname_laws::small(b[i])
}

/// A domain, whatever the case, with something and a dot before it, and in the
/// whole no dot at either end and no two dots in a row.
pub open spec fn lies_under(name: Seq<char>, domain: Seq<char>) -> bool {
    let start = name.len() - domain.len();
    &&& start >= 2
    &&& name[start - 1] == '.'
    &&& alike(name.skip(start), domain)
    &&& name.first() != '.'
    &&& name.last() != '.'
    &&& forall|i: int| 0 < i < name.len() && #[trigger] name[i] == '.' ==> name[i - 1] != '.'
}

/// Names are the same whatever the case if and only if they are alike place by
/// place.
pub proof fn law_same_names_are_alike(a: Seq<char>, b: Seq<char>)
    ensures
        same_name(a, b) <==> alike(a, b),
{
    crate::hostname_laws::law_lower_case(a);
    crate::hostname_laws::law_lower_case(b);
    let x = crate::text::ascii_lowercase(a);
    let y = crate::text::ascii_lowercase(b);
    if same_name(a, b) {
        assert forall|i: int| 0 <= i < a.len() implies crate::hostname_laws::small(#[trigger] a[i])
            == crate::hostname_laws::small(b[i]) by {
            assert(x[i] == y[i]);
        }
    }
    if alike(a, b) {
        assert(x =~= y);
    }
}

/// Every name of a policy counts, wherever it stands among the others: a policy
/// allows a name if and only if the name is like one of its own or, where
/// subdomains are allowed, lies under one of them.
pub proof fn law_every_name_counts(policy: PolicyView, name: Seq<char>)
    ensures
        policy_allows(policy, Some(name)) <==> exists|domain: Seq<char>| #[trigger]
            policy.exact.contains(domain) && (alike(name, domain) || (policy.allow_subdomains
                && lies_under(name, domain))),
        !policy_allows(policy, None),
{
    crate::hostname_laws::law_no_empty_label(name);
    assert forall|domain: Seq<char>| #[trigger] subdomain(name, domain) <==> lies_under(
        name,
        domain,
    ) by {
        law_same_names_are_alike(end_of(name, domain), domain);
    }
    assert forall|domain: Seq<char>| #[trigger] same_name(name, domain) <==> alike(
        name,
        domain,
    ) by {
        law_same_names_are_alike(name, domain);
    }
    if policy_allows(policy, Some(name)) {
        let i = choose|i: int|
            0 <= i < policy.exact.len() && (same_name(name, #[trigger] policy.exact[i]) || (
            policy.allow_subdomains && subdomain(name, policy.exact[i])));
        assert(policy.exact.contains(policy.exact[i]));
    }
    if exists|domain: Seq<char>| #[trigger]
        policy.exact.contains(domain) && (alike(name, domain) || (policy.allow_subdomains
            && lies_under(name, domain))) {
        let domain = choose|domain: Seq<char>| #[trigger]
            policy.exact.contains(domain) && (alike(name, domain) || (policy.allow_subdomains
                && lies_under(name, domain)));
        let i = choose|i: int| 0 <= i < policy.exact.len() && policy.exact[i] == domain;
        assert(same_name(name, policy.exact[i]) || (policy.allow_subdomains && subdomain(
            name,
            policy.exact[i],
        )));
    }
}

/// Two policies with the same names allow the same, in whatever order and
/// however often the names stand in them.
pub proof fn law_order_does_not_matter(a: PolicyView, b: PolicyView, candidate: Option<Seq<char>>)
    requires
        a.allow_subdomains == b.allow_subdomains,
        forall|name: Seq<char>| #[trigger] a.exact.contains(name) <==> b.exact.contains(name),
    ensures
        policy_allows(a, candidate) == policy_allows(b, candidate),
{
    if let Some(name) = candidate {
        law_every_name_counts(a, name);
        law_every_name_counts(b, name);
        assert forall|domain: Seq<char>| #[trigger] b.exact.contains(domain) implies
            a.exact.contains(domain) by {
            assert(a.exact.contains(domain) <==> b.exact.contains(domain));
        }
    }
}

/// Whatever name is allowed is allowed itself, in every case of its letters,
/// and with it, where subdomains are, everything that lies under it.
pub proof fn law_allowed_names_are_accepted(
    policy: PolicyView,
    allowed: Seq<char>,
    asked: Seq<char>,
    prefix: Seq<char>,
)
    requires
        policy.exact.contains(allowed),
        alike(asked, allowed),
    ensures
        policy_allows(policy, Some(asked)),
        policy.allow_subdomains && crate::hostname::no_empty_label(asked)
            && crate::hostname::no_empty_label(prefix) ==> policy_allows(
            policy,
            Some(prefix.push('.') + asked),
        ),
{
    law_every_name_counts(policy, asked);
    let name = prefix.push('.') + asked;
    let start = prefix.len() + 1;
    if policy.allow_subdomains && crate::hostname::no_empty_label(asked)
        && crate::hostname::no_empty_label(prefix) {
        crate::hostname_laws::law_no_empty_label(asked);
        crate::hostname_laws::law_no_empty_label(prefix);
        assert(name.skip(start as int) =~= asked);
        assert(name.len() - allowed.len() == start);
        assert(name.first() == prefix.first());
        assert(name.last() == asked.last());
        assert forall|i: int| 0 < i < name.len() && #[trigger] name[i] == '.' implies name[i - 1]
            != '.' by {
            if i < prefix.len() {
                assert(name[i] == prefix[i]);
                assert(name[i - 1] == prefix[i - 1]);
            } else if i == prefix.len() {
                assert(name[i - 1] == prefix.last());
            } else {
                assert(name[i] == asked[i - start]);
                if i > start {
                    assert(name[i - 1] == asked[i - 1 - start]);
                }
            }
        }
        assert(lies_under(name, allowed));
        law_every_name_counts(policy, name);
    }
}

/// A name that an operator may allow is one that is spelled as a hostname is,
/// but for dots at its end, and one to 253 characters long. It is allowed in
/// lower case; any other value is refused with the reason.
pub proof fn law_allowed_names_are_taken(name: Seq<char>, n: nat, lower: Seq<char>)
    requires
        name.len() > 0 ==> name.last() != '.',
        crate::hostname_laws::is_small_of(lower, name),
    ensures
        ({
            let value = name + crate::hostname_laws::dots(n);
            allowed_name(value) == if value.len() == 0 || value.len() > 253
                || !vstd::utf8::is_ascii_chars(value) {
                Err::<Seq<char>, Seq<char>>("allowed SNI must be a non-empty ASCII hostname"@)
            } else if crate::hostname_laws::spelled(name) {
                Ok::<Seq<char>, Seq<char>>(lower)
            } else {
                Err::<Seq<char>, Seq<char>>("allowed SNI is not a valid DNS hostname"@)
            }
        }),
{
    let value = name + crate::hostname_laws::dots(n);
    crate::hostname_laws::law_server_names_are_taken(name, n, lower);
    law_allowed_names_are_server_names(value);
}

/// The names that a policy is made of are those that it was given, all of them.
pub proof fn law_given_names_are_kept(names: Seq<String>, name: Seq<char>)
    ensures
        given(names).contains(name) <==> exists|i: int|
            0 <= i < names.len() && (#[trigger] names[i])@ == name,
{
    if given(names).contains(name) {
        let i = choose|i: int| 0 <= i < given(names).len() && given(names)[i] == name;
        assert(names[i]@ == name);
    }
    if exists|i: int| 0 <= i < names.len() && (#[trigger] names[i])@ == name {
        let i = choose|i: int| 0 <= i < names.len() && (#[trigger] names[i])@ == name;
        assert(given(names)[i] == name);
    }
}

} // verus!
