//! The capability extractor: decode a manifest text and keep, in order, the
//! components of type `"capability"` that carry a configuration list.
use vstd::prelude::*;
use vstd::string::StringExecFns;

use crate::json::json_parse;
use crate::schema::CapabilityComponent;
use crate::schema::CapabilityComponentView;
use crate::schema::DecodeError;
use crate::schema::DecodeErrorView;
use crate::schema::Root;
use crate::schema::spec_decode_root;

verus! {

/// Whether a component is retained: its type tag is `"capability"`, its
/// properties are present, and those properties carry a `config` list —
/// present, even if empty, not necessarily non-empty.
pub open spec fn is_capability_model(c: CapabilityComponentView) -> bool {
    &&& c.component_type == "capability"@
    &&& match c.properties {
        Some(p) => p.config is Some,
        None => false,
    }
}

/// The retained components, in their original order.
pub open spec fn spec_extract(components: Seq<CapabilityComponentView>) -> Seq<
    CapabilityComponentView,
> {
    components.filter(|c: CapabilityComponentView| is_capability_model(c))
}

/// Extending the component list by one element extends the extraction by that
/// element exactly when it is a retained capability.
pub proof fn lemma_extract_push(s: Seq<CapabilityComponentView>, c: CapabilityComponentView)
    ensures
        spec_extract(s.push(c)) == if is_capability_model(c) {
            spec_extract(s).push(c)
        } else {
            spec_extract(s)
        },
{
    reveal(Seq::filter);
    assert(s.push(c).drop_last() =~= s);
    assert(s.push(c).last() == c);
}

/// Extraction law: the result keeps only components that satisfy the
/// capability condition, never grows, and keeps every satisfying component
/// of the source; by the definition of [`spec_extract`] the retained
/// components appear in their original order, each equal to its source.
pub proof fn lemma_extraction_exact(components: Seq<CapabilityComponentView>)
    ensures
        spec_extract(components).len() <= components.len(),
        forall|i: int|
            0 <= i < spec_extract(components).len() ==> is_capability_model(
                #[trigger] spec_extract(components)[i],
            ),
        forall|i: int|
            0 <= i < components.len() && is_capability_model(components[i])
                ==> spec_extract(components).contains(components[i]),
{
    broadcast use vstd::seq_lib::group_filter_ensures;

}

/// How many components satisfy the capability condition.
pub open spec fn count_capabilities(components: Seq<CapabilityComponentView>) -> nat
    decreases components.len(),
{
    if components.len() == 0 {
        0
    } else {
        count_capabilities(components.drop_last()) + if is_capability_model(components.last()) {
            1nat
        } else {
            0nat
        }
    }
}

/// Counting law: the extraction returns exactly as many components as
/// satisfy the capability condition.
pub proof fn lemma_extract_count(components: Seq<CapabilityComponentView>)
    ensures
        spec_extract(components).len() == count_capabilities(components),
    decreases components.len(),
{
    if components.len() > 0 {
        lemma_extract_count(components.drop_last());
        lemma_extract_push(components.drop_last(), components.last());
        assert(components.drop_last().push(components.last()) =~= components);
    } else {
        reveal(Seq::filter);
    }
}

/// Capability condition law: a component of type `"capability"` whose
/// properties are present but whose `config` is absent is excluded, while one
/// whose `config` is present but empty is included.
pub proof fn lemma_capability_condition(c: CapabilityComponentView)
    ensures
        (c.properties matches Some(p) && p.config is None) ==> !is_capability_model(c),
        (c.component_type == "capability"@ && (c.properties matches Some(p) && p.config
            is Some)) ==> is_capability_model(c),
{
}

/// Whether this component is retained by the extractor.
fn is_capability(c: &CapabilityComponent) -> (r: bool)
    ensures
        r == is_capability_model(c.deep_view()),
{
    if !c.component_type.eq(&String::from_str("capability")) {
        return false;
    }
    match &c.properties {
        Some(p) => p.config.is_some(),
        None => false,
    }
}

/// Decodes the given manifest text and returns the capability components:
/// every component whose type is `"capability"` and whose properties carry a
/// `config` list, in original order, as independent owned values. Fails with
/// the decode error when the text does not decode.
pub fn extract_capability_components(config: &str) -> (r: Result<
    Vec<CapabilityComponent>,
    DecodeError,
>)
    ensures
        match json_parse(config@) {
            None => r matches Err(e) && e.deep_view() is Syntax,
            Some(jm) => match spec_decode_root(jm) {
                Err(ev) => r matches Err(e) && e.deep_view() == ev,
                Ok(rv) => r matches Ok(cs) && cs.deep_view() == spec_extract(
                    rv.manifests.version.spec.components,
                ),
            },
        },
{
    let root = match Root::decode(config) {
        Ok(root) => root,
        Err(e) => {
            return Err(e);
        },
    };
    let mut rest = root.manifests.version.spec.components;
    let ghost orig = rest.deep_view();
    let mut out: Vec<CapabilityComponent> = Vec::new();
    let ghost mut k: int = 0;
    proof {
        assert(orig.skip(0) =~= orig);
        assert(orig.take(0) =~= Seq::<CapabilityComponentView>::empty());
        reveal(Seq::filter);
        assert(out.deep_view() =~= Seq::<CapabilityComponentView>::empty());
        assert(spec_extract(Seq::empty()) == Seq::<CapabilityComponentView>::empty());
    }
    while rest.len() > 0
        invariant
            0 <= k <= orig.len(),
            k + rest@.len() == orig.len(),
            rest.deep_view() == orig.skip(k),
            out.deep_view() == spec_extract(orig.take(k)),
        decreases rest@.len(),
    {
        let ghost old_rest_dv = rest.deep_view();
        let c = rest.remove(0);
        proof {
            k = k + 1;
            assert(c.deep_view() == old_rest_dv[0]);
            assert(rest.deep_view() =~= old_rest_dv.drop_first());
            assert(old_rest_dv.drop_first() =~= orig.skip(k));
            assert(old_rest_dv[0] == orig[k - 1]);
            assert(orig.take(k) =~= orig.take(k - 1).push(orig[k - 1]));
            lemma_extract_push(orig.take(k - 1), orig[k - 1]);
        }
        if is_capability(&c) {
            out.push(c);
            proof {
                assert(out.deep_view() =~= spec_extract(orig.take(k)));
            }
        }
    }
    proof {
        assert(orig.take(orig.len() as int) =~= orig);
    }
    Ok(out)
}

} // verus!
