//! The converter options handed to each daemon at boot. The daemon is
//! sensitive to the order in which math outputs are enabled, so the math
//! toggles always come last, in one fixed order.
use vstd::prelude::*;
use vstd::string::StringExecFns;

verus! {

/// The math toggles, in the order in which they are passed on.
pub open spec fn math_toggles() -> Seq<Seq<char>> {
    seq![
        "pmml"@,
        "cmml"@,
        "openmath"@,
        "mathtex"@,
        "nopmml"@,
        "nocmml"@,
        "noopenmath"@,
        "nomathtex"@,
    ]
}

/// An option as plain text: its name and its value (empty for a flag).
pub open spec fn option_view(o: (String, String)) -> (Seq<char>, Seq<char>) {
    (o.0@, o.1@)
}

/// A flag that is one of the math toggles.
pub open spec fn is_math_toggle(o: (Seq<char>, Seq<char>)) -> bool {
    math_toggles().contains(o.0) && o.1.len() == 0
}

/// The options other than the math toggles, in the order given.
pub open spec fn other_options(given: Seq<(String, String)>) -> Seq<(Seq<char>, Seq<char>)>
    decreases given.len(),
{
    if given.len() == 0 {
        Seq::empty()
    } else {
        let rest = other_options(given.drop_last());
        let o = option_view(given.last());
        if is_math_toggle(o) {
            rest
        } else {
            rest.push(o)
        }
    }
}

/// The toggle `t` was given as a flag.
pub open spec fn toggle_given(given: Seq<(String, String)>, t: Seq<char>) -> bool {
    exists|j: int| 0 <= j < given.len() && option_view(given[j]) == (t, Seq::<char>::empty())
}

/// The first `k` math toggles that were given, once each, in the fixed
/// order.
pub open spec fn requested_toggles(given: Seq<(String, String)>, k: nat) -> Seq<
    (Seq<char>, Seq<char>),
>
    decreases k,
{
    if k == 0 {
        Seq::empty()
    } else {
        let rest = requested_toggles(given, (k - 1) as nat);
        let t = math_toggles()[k - 1];
        if toggle_given(given, t) {
            rest.push((t, Seq::<char>::empty()))
        } else {
            rest
        }
    }
}

/// The options in the order the daemon is to receive them.
pub open spec fn ordered_options(given: Seq<(String, String)>) -> Seq<(Seq<char>, Seq<char>)> {
    other_options(given) + requested_toggles(given, 8)
}

fn toggle_names() -> (r: Vec<String>)
    ensures
        r@.len() == 8,
        forall|i: int| 0 <= i < 8 ==> r@[i]@ == math_toggles()[i],
{
    let mut r: Vec<String> = Vec::new();
    r.push(String::from_str("pmml"));
    r.push(String::from_str("cmml"));
    r.push(String::from_str("openmath"));
    r.push(String::from_str("mathtex"));
    r.push(String::from_str("nopmml"));
    r.push(String::from_str("nocmml"));
    r.push(String::from_str("noopenmath"));
    r.push(String::from_str("nomathtex"));
    r
}

/// Puts the options in the order the daemon is to receive them: every
/// option but the math toggles as given, then each math toggle that was
/// given, once, in the order pmml, cmml, openmath, mathtex, nopmml, nocmml,
/// noopenmath, nomathtex.
pub fn order_boot_options(given: &Vec<(String, String)>) -> (r: Vec<(String, String)>)
    ensures
        r@.map_values(|o: (String, String)| option_view(o)) == ordered_options(given@),
{
    let toggles = toggle_names();
    let mut r: Vec<(String, String)> = Vec::new();
    let mut i: usize = 0;
    while i < given.len()
        invariant
            i <= given@.len(),
            toggles@.len() == 8,
            forall|t: int| 0 <= t < 8 ==> toggles@[t]@ == math_toggles()[t],
            r@.map_values(|o: (String, String)| option_view(o)) == other_options(
                given@.subrange(0, i as int),
            ),
        decreases given@.len() - i,
    {
        let ghost prefix = given@.subrange(0, i as int + 1);
        assert(prefix.drop_last() == given@.subrange(0, i as int));
        assert(prefix.last() == given@[i as int]);
        let mut toggle = false;
        if given[i].1.as_str().is_empty() {
            let mut t: usize = 0;
            while t < 8
                invariant
                    i < given@.len(),
                    t <= 8,
                    toggles@.len() == 8,
                    forall|u: int| 0 <= u < 8 ==> toggles@[u]@ == math_toggles()[u],
                    toggle == exists|u: int| 0 <= u < t && math_toggles()[u] == given@[i as int].0@,
                decreases 8 - t,
            {
                if given[i].0 == toggles[t] {
                    toggle = true;
                }
                proof {
                    assert(toggles@[t as int]@ == math_toggles()[t as int]);
                    if math_toggles()[t as int] == given@[i as int].0@ {
                        assert(0 <= t < t + 1);
                    }
                    assert((exists|u: int| 0 <= u < t + 1 && math_toggles()[u] == given@[i as int].0@)
                        == ((exists|u: int| 0 <= u < t && math_toggles()[u] == given@[i as int].0@)
                        || math_toggles()[t as int] == given@[i as int].0@));
                }
                t = t + 1;
            }
        }
        proof {
            let o = option_view(given@[i as int]);
            if math_toggles().contains(o.0) {
                let u = choose|u: int| 0 <= u < 8 && math_toggles()[u] == o.0;
                assert(0 <= u < 8);
            }
            assert(toggle == is_math_toggle(o));
        }
        if !toggle {
            let ghost before = r@;
            r.push((given[i].0.clone(), given[i].1.clone()));
            proof {
                assert(r@.map_values(|o: (String, String)| option_view(o)) =~= before.map_values(
                    |o: (String, String)| option_view(o),
                ).push(option_view(given@[i as int])));
            }
        }
        i = i + 1;
    }
    assert(given@.subrange(0, given@.len() as int) == given@);
    let ghost others = r@.map_values(|o: (String, String)| option_view(o));
    let mut t: usize = 0;
    while t < 8
        invariant
            t <= 8,
            toggles@.len() == 8,
            forall|u: int| 0 <= u < 8 ==> toggles@[u]@ == math_toggles()[u],
            others == other_options(given@),
            r@.map_values(|o: (String, String)| option_view(o)) == others + requested_toggles(
                given@,
                t as nat,
            ),
        decreases 8 - t,
    {
        let mut found = false;
        let mut j: usize = 0;
        while j < given.len()
            invariant
                t < 8,
                j <= given@.len(),
                toggles@.len() == 8,
                found == exists|k: int|
                    0 <= k < j && option_view(given@[k]) == (
                        toggles@[t as int]@,
                        Seq::<char>::empty(),
                    ),
            decreases given@.len() - j,
        {
            if given[j].1.as_str().is_empty() && given[j].0 == toggles[t] {
                found = true;
            }
            proof {
                if given@[j as int].1@.len() == 0 && given@[j as int].0@ == toggles@[t as int]@ {
                    assert(given@[j as int].1@ =~= Seq::<char>::empty());
                }
            }
            j = j + 1;
        }
        let ghost before = r@;
        if found {
            r.push((toggles[t].clone(), String::new()));
            proof {
                assert(r@.map_values(|o: (String, String)| option_view(o)) =~= before.map_values(
                    |o: (String, String)| option_view(o),
                ).push((math_toggles()[t as int], Seq::<char>::empty())));
            }
        }
        proof {
            assert(found == toggle_given(given@, math_toggles()[t as int]));
            assert(requested_toggles(given@, (t + 1) as nat) == if found {
                requested_toggles(given@, t as nat).push((math_toggles()[t as int], Seq::<char>::empty()))
            } else {
                requested_toggles(given@, t as nat)
            });
        }
        t = t + 1;
    }
    r
}

} // verus!
