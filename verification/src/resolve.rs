//! Language-tag resolution: map a requested tag to the engine-supported tag
//! that will serve it. The request is lowercased; an exact match wins; else
//! the first region variant of the request in the engine's enumeration
//! order wins; else resolution fails with a validation error.

use vstd::prelude::*;

use crate::chars::lower_char_exec;
use crate::chars::lower_seq;
use crate::chars::push_char;
use crate::error::DocrError;

verus! {

/// `tag` is a region variant of the base tag `base`: it begins with `base`
/// immediately followed by a hyphen.
pub open spec fn is_region_variant(tag: Seq<char>, base: Seq<char>) -> bool {
    base.push('-').is_prefix_of(tag)
}

/// The index of the first region variant of `base` in `av`, or `av.len()`
/// if there is none.
pub open spec fn first_variant_at(av: Seq<Seq<char>>, base: Seq<char>) -> int
    decreases av.len(),
{
    if av.len() == 0 {
        0
    } else if is_region_variant(av.first(), base) {
        0
    } else {
        1 + first_variant_at(av.drop_first(), base)
    }
}

pub proof fn lemma_first_variant_at_bounds(av: Seq<Seq<char>>, base: Seq<char>)
    ensures
        0 <= first_variant_at(av, base) <= av.len(),
        forall|j: int| 0 <= j < first_variant_at(av, base) ==> !is_region_variant(av[j], base),
        first_variant_at(av, base) < av.len() ==> is_region_variant(
            av[first_variant_at(av, base)],
            base,
        ),
    decreases av.len(),
{
    if av.len() == 0 {
    } else if is_region_variant(av.first(), base) {
    } else {
        lemma_first_variant_at_bounds(av.drop_first(), base);
        assert(av[0] == av.first());
        assert forall|j: int| 0 <= j < first_variant_at(av, base) implies !is_region_variant(
            av[j],
            base,
        ) by {
            if j > 0 {
                assert(av.drop_first()[j - 1] == av[j]);
            }
        }
        if first_variant_at(av, base) < av.len() {
            assert(av.drop_first()[first_variant_at(av.drop_first(), base)]
                == av[first_variant_at(av, base)]);
        }
    }
}

/// The message of the validation error for a tag no supported tag serves.
pub open spec fn unsupported_tag_message(tag: Seq<char>) -> Seq<char> {
    "Language '"@ + tag + "' is not supported by the OCR engine"@
}

/// What resolution returns: the lowercased request when it is supported
/// itself, else the first supported region variant of it, else the
/// validation-error message.
pub open spec fn resolve_spec(given: Seq<char>, av: Seq<Seq<char>>) -> Result<Seq<char>, Seq<char>> {
    let lg = lower_seq(given);
    if av.contains(lg) {
        Ok(lg)
    } else if first_variant_at(av, lg) < av.len() {
        Ok(av[first_variant_at(av, lg)])
    } else {
        Err(unsupported_tag_message(lg))
    }
}

/// A requested tag present verbatim in the supported set resolves to
/// exactly that tag.
pub proof fn lemma_resolve_exact(given: Seq<char>, av: Seq<Seq<char>>)
    requires
        av.contains(lower_seq(given)),
    ensures
        resolve_spec(given, av) == Ok::<Seq<char>, Seq<char>>(lower_seq(given)),
{
}

/// A requested base tag with no exact match but at least one region variant
/// present resolves to the first such variant in enumeration order — a tag
/// that really is a variant of the request, with no variant before it.
pub proof fn lemma_resolve_first_variant(given: Seq<char>, av: Seq<Seq<char>>, i: int)
    requires
        !av.contains(lower_seq(given)),
        0 <= i < av.len(),
        is_region_variant(av[i], lower_seq(given)),
    ensures
        ({
            let lg = lower_seq(given);
            let k = first_variant_at(av, lg);
            &&& 0 <= k <= i
            &&& is_region_variant(av[k], lg)
            &&& forall|j: int| 0 <= j < k ==> !is_region_variant(av[j], lg)
            &&& resolve_spec(given, av) == Ok::<Seq<char>, Seq<char>>(av[k])
        }),
{
    let lg = lower_seq(given);
    lemma_first_variant_at_bounds(av, lg);
    if first_variant_at(av, lg) > i {
        assert(!is_region_variant(av[i], lg));
    }
}

/// A requested tag with neither an exact match nor a region variant in the
/// supported set fails to resolve, with the unsupported-language message.
pub proof fn lemma_resolve_no_match(given: Seq<char>, av: Seq<Seq<char>>)
    requires
        !av.contains(lower_seq(given)),
        forall|i: int| 0 <= i < av.len() ==> !is_region_variant(av[i], lower_seq(given)),
    ensures
        resolve_spec(given, av) == Err::<Seq<char>, Seq<char>>(
            unsupported_tag_message(lower_seq(given)),
        ),
{
    let lg = lower_seq(given);
    lemma_first_variant_at_bounds(av, lg);
}

/// Lowercase one language tag.
pub fn lowercase_tag(tag: &str) -> (r: String)
    ensures
        r@ == lower_seq(tag@),
{
    let n: usize = tag.unicode_len();
    let mut out = String::new();
    let mut i: usize = 0;
    proof {
        assert(out@ =~= lower_seq(tag@).take(0));
    }
    while i < n
        invariant
            i <= n,
            n == tag@.len(),
            out@ == lower_seq(tag@).take(i as int),
        decreases n - i,
    {
        let c = tag.get_char(i);
        push_char(&mut out, lower_char_exec(c));
        proof {
            assert(lower_seq(tag@).take(i as int + 1) =~= lower_seq(tag@).take(i as int).push(
                lower_seq(tag@)[i as int],
            ));
        }
        i = i + 1;
    }
    proof {
        assert(lower_seq(tag@).take(n as int) =~= lower_seq(tag@));
    }
    out
}

/// Lowercase every tag of an enumeration, keeping the order.
pub fn lowercase_tags(tags: &Vec<String>) -> (r: Vec<String>)
    ensures
        r.deep_view() == tags.deep_view().map_values(|t: Seq<char>| lower_seq(t)),
{
    let ghost target = tags.deep_view().map_values(|t: Seq<char>| lower_seq(t));
    let mut r: Vec<String> = Vec::new();
    let mut i: usize = 0;
    proof {
        assert(r.deep_view() =~= target.take(0));
    }
    while i < tags.len()
        invariant
            i <= tags.len(),
            target == tags.deep_view().map_values(|t: Seq<char>| lower_seq(t)),
            target.len() == tags.len(),
            r.deep_view() == target.take(i as int),
        decreases tags.len() - i,
    {
        let lowered = lowercase_tag(tags[i].as_str());
        let ghost r0 = r.deep_view();
        r.push(lowered);
        proof {
            assert(tags.deep_view()[i as int] == tags[i as int]@);
            assert(r.deep_view() =~= r0.push(lower_seq(tags.deep_view()[i as int])));
            assert(target.take(i as int + 1) =~= target.take(i as int).push(target[i as int]));
        }
        i = i + 1;
    }
    proof {
        assert(target.take(tags.len() as int) =~= target);
    }
    r
}

/// Does `tag` begin with `base` followed by a hyphen?
fn region_variant(tag: &String, base: &String) -> (r: bool)
    ensures
        r == is_region_variant(tag@, base@),
{
    let tl: usize = tag.as_str().unicode_len();
    let bl: usize = base.as_str().unicode_len();
    if tl <= bl {
        proof {
            assert(base@.push('-').len() == bl + 1);
        }
        return false;
    }
    let mut i: usize = 0;
    while i < bl
        invariant
            i <= bl,
            bl == base@.len(),
            tl == tag@.len(),
            bl < tl,
            forall|m: int| 0 <= m < i ==> tag@[m] == base@[m],
        decreases bl - i,
    {
        if tag.as_str().get_char(i) != base.as_str().get_char(i) {
            proof {
                assert(base@.push('-')[i as int] == base@[i as int]);
            }
            return false;
        }
        i = i + 1;
    }
    let hyphen_matches = tag.as_str().get_char(bl) == '-';
    proof {
        if hyphen_matches {
            assert(base@.push('-') =~= tag@.subrange(0, bl as int + 1));
        } else {
            assert(base@.push('-')[bl as int] == '-');
        }
    }
    hyphen_matches
}

/// Build the message of the unsupported-language error.
fn build_unsupported_message(tag: &String) -> (m: String)
    ensures
        m@ == unsupported_tag_message(tag@),
{
    let mut m = String::from_str("Language '");
    m.append(tag.as_str());
    m.append("' is not supported by the OCR engine");
    m
}

/// Resolve a requested language tag against the engine's supported tags,
/// given in the engine's own enumeration order: the lowercased request when
/// supported itself, else the first supported region variant of it, else a
/// validation error carrying the unsupported-language message.
pub fn resolve_language_tag(given_tag: &str, available_tags: &Vec<String>) -> (r: Result<
    String,
    DocrError,
>)
    ensures
        ({
            let spec_r = resolve_spec(given_tag@, available_tags.deep_view());
            match r {
                Ok(tag) => spec_r matches Ok(t) && tag@ == t,
                Err(e) => spec_r matches Err(m) && e matches DocrError::OperationError(em)
                    && em@ == m,
            }
        }),
{
    let ghost av = available_tags.deep_view();
    let ghost lg = lower_seq(given_tag@);
    let lowered = lowercase_tag(given_tag);
    let n: usize = available_tags.len();
    let mut i: usize = 0;
    while i < n
        invariant
            i <= n,
            n == av.len(),
            av == available_tags.deep_view(),
            lowered@ == lg,
            lg == lower_seq(given_tag@),
            forall|j: int| 0 <= j < i ==> av[j] != lg,
        decreases n - i,
    {
        if available_tags[i] == lowered {
            proof {
                assert(av[i as int] == available_tags[i as int]@);
                assert(av.contains(lg));
            }
            return Ok(lowered);
        }
        proof {
            assert(av[i as int] == available_tags[i as int]@);
        }
        i = i + 1;
    }
    proof {
        assert(!av.contains(lg));
    }
    let mut k: usize = 0;
    while k < n
        invariant
            k <= n,
            n == av.len(),
            av == available_tags.deep_view(),
            lowered@ == lg,
            lg == lower_seq(given_tag@),
            !av.contains(lg),
            forall|j: int| 0 <= j < k ==> !is_region_variant(av[j], lg),
        decreases n - k,
    {
        if region_variant(&available_tags[k], &lowered) {
            proof {
                assert(av[k as int] == available_tags[k as int]@);
                lemma_first_variant_at_bounds(av, lg);
                if first_variant_at(av, lg) > k {
                    assert(!is_region_variant(av[k as int], lg));
                }
                assert(first_variant_at(av, lg) == k as int);
            }
            return Ok(available_tags[k].clone());
        }
        proof {
            assert(av[k as int] == available_tags[k as int]@);
        }
        k = k + 1;
    }
    proof {
        lemma_first_variant_at_bounds(av, lg);
        if first_variant_at(av, lg) < av.len() {
            assert(!is_region_variant(av[first_variant_at(av, lg)], lg));
        }
    }
    let m = build_unsupported_message(&lowered);
    Err(DocrError::OperationError(m))
}

} // verus!
