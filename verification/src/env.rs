//! Environment-variable capture.
//!
//! The capture phase maps internal variable names to system environment
//! variable names.  Each system name is looked up first in the contents of
//! a dot-env file, then in a snapshot of the process environment, both
//! handed in as plain maps; a name found in neither is a configuration
//! error naming both sides of the mapping.

use vstd::prelude::*;

use crate::error::AlixtError;
use crate::vars::VarMap;

verus! {

/// Where one system name resolves: the dot-env contents first, the
/// process environment second.
pub open spec fn env_value(
    system_key: Seq<char>,
    dot_env: Map<Seq<char>, Seq<char>>,
    system: Map<Seq<char>, Seq<char>>,
) -> Option<Seq<char>> {
    if dot_env.dom().contains(system_key) {
        Some(dot_env[system_key])
    } else if system.dom().contains(system_key) {
        Some(system[system_key])
    } else {
        None
    }
}

/// The captured namespace after the first `k` mappings resolved.
pub open spec fn captured_pairs(
    entries: Seq<(Seq<char>, Seq<char>)>,
    dot_env: Map<Seq<char>, Seq<char>>,
    system: Map<Seq<char>, Seq<char>>,
    k: int,
) -> Seq<(Seq<char>, Seq<char>)>
    decreases k,
{
    if k <= 0 || k > entries.len() {
        Seq::empty()
    } else {
        captured_pairs(entries, dot_env, system, k - 1) + (match env_value(
            entries[k - 1].1,
            dot_env,
            system,
        ) {
            Some(v) => seq![(entries[k - 1].0, v)],
            None => Seq::empty(),
        })
    }
}

/// Resolves every mapping of internal name to system name: the dot-env
/// contents shadow the process environment, and a system name found in
/// neither is a configuration error.
pub fn capture_system_environment(
    env_map: &VarMap,
    dot_env_vars: Option<VarMap>,
    system_env: &VarMap,
) -> (r: Result<VarMap, AlixtError>)
    ensures
        ({
            let dot = match dot_env_vars {
                Some(d) => d@,
                None => Map::<Seq<char>, Seq<char>>::empty(),
            };
            &&& (r is Ok <==> (forall|i: int|
                0 <= i < env_map.pairs().len() ==> env_value(
                    (#[trigger] env_map.pairs()[i]).1,
                    dot,
                    system_env@,
                ) is Some))
            &&& (r matches Ok(vars) ==> vars.pairs() == captured_pairs(
                env_map.pairs(),
                dot,
                system_env@,
                env_map.pairs().len() as int,
            ))
            &&& (r matches Err(e) ==> e is Config)
        }),
{
    let ghost dot = match &dot_env_vars {
        Some(d) => d@,
        None => Map::<Seq<char>, Seq<char>>::empty(),
    };
    let local_vars = match dot_env_vars {
        Some(d) => d,
        None => VarMap::new(),
    };
    proof {
        assert(local_vars@ == dot);
    }
    let mut captured = VarMap::new();
    let n = env_map.len();
    let mut i: usize = 0;
    while i < n
        invariant
            i <= n,
            n == env_map.pairs().len(),
            local_vars@ == dot,
            dot == (match dot_env_vars {
                Some(d) => d@,
                None => Map::<Seq<char>, Seq<char>>::empty(),
            }),
            captured.pairs() == captured_pairs(env_map.pairs(), dot, system_env@, i as int),
            forall|j: int|
                0 <= j < i ==> env_value((#[trigger] env_map.pairs()[j]).1, dot, system_env@)
                    is Some,
        decreases n - i,
    {
        let internal_key = env_map.key_at(i).clone();
        let system_key = env_map.val_at(i);
        let value: String = match local_vars.get(system_key) {
            Some(v) => v.clone(),
            None => match system_env.get(system_key) {
                Some(v) => v.clone(),
                None => {
                    let mut msg = String::from_str(
                        "Capture Failed: Required variable '",
                    );
                    msg.append(system_key.as_str());
                    msg.append("', mapped to '");
                    msg.append(internal_key.as_str());
                    msg.append("', was not found in .env file or system environment");
                    proof {
                        assert(env_value(
                            env_map.pairs()[i as int].1,
                            dot,
                            system_env@,
                        ) is None);
                    }
                    return Err(AlixtError::Config(msg));
                },
            },
        };
        captured.insert(internal_key, value);
        proof {
            assert(captured.pairs() =~= captured_pairs(
                env_map.pairs(),
                dot,
                system_env@,
                i + 1,
            ));
        }
        i = i + 1;
    }
    Ok(captured)
}

} // verus!
