//! Deterministic-shape dummy agents and their schema, for exercising the
//! datastore.

use rand::Rng;
use rand::SeedableRng;
use vstd::prelude::*;

use crate::agent::{Agent, AgentValue};
use crate::data_type::ArrowSchema;
use crate::error::Error;
use crate::field::{
    FieldScope, FieldSource, FieldSpec, FieldSpecMap, FieldType, FieldTypeVariant, PresetFieldType,
    has_fixed_previous_index, materializes,
};

verus! {

/// The declared fields of the dummy-agent schema, materialized.
#[derive(Debug)]
pub struct AgentSchema {
    pub field_spec_map: FieldSpecMap,
    pub arrow: ArrowSchema,
}

impl AgentSchema {
    /// Materialize a field map into an agent schema. Fails exactly when the
    /// map lacks its fixed-size reserved field.
    pub fn new(field_spec_map: FieldSpecMap) -> (r: Result<AgentSchema, Error>)
        ensures
            r is Ok <==> has_fixed_previous_index(field_spec_map.field_specs@),
            r matches Ok(s) ==> s.field_spec_map == field_spec_map && materializes(
                s.field_spec_map.field_specs@,
                s.arrow,
            ),
    {
        let arrow = field_spec_map.get_arrow_schema()?;
        Ok(AgentSchema { field_spec_map, arrow })
    }
}

/// Relies on rand's `StdRng::seed_from_u64` and `Rng::gen`: a block of
/// words drawn from the seeded generator.
#[verifier::external_body]
fn seeded_words(seed: u64, count: usize) -> (r: Vec<u64>)
    ensures
        r@.len() == count,
{
    let mut rng = rand::rngs::StdRng::seed_from_u64(seed);
    let mut out: Vec<u64> = Vec::with_capacity(count);
    for _ in 0..count {
        out.push(rng.gen::<u64>());
    }
    out
}

/// Relies on rand's seeded `StdRng` with `Alphanumeric`, and on
/// `String::from_utf8`: fewer than 64 alphanumeric characters, one byte
/// each.
#[verifier::external_body]
fn rand_string(seed: u64) -> (r: String)
    ensures
        r@.len() < 64,
{
    let mut rng = rand::rngs::StdRng::seed_from_u64(seed);
    let count = rng.gen_range(0..64);
    let bytes: Vec<u8> = (0..count).map(|_| rng.sample(rand::distributions::Alphanumeric)).collect();
    String::from_utf8(bytes).unwrap_or_default()
}

/// One dummy agent drawn from the seed: a fresh identifier, a short random
/// name, and number-shaped fields.
fn make_dummy_agent(seed: u64) -> (r: Agent)
    ensures
        r.agent_id@.len() == 36,
        r.agent_name@.len() < 64,
        r.custom@.len() == 3,
{
    let words = seeded_words(seed, 4);
    let mut agent = Agent::empty();
    agent.agent_id = crate::config::new_v4_id();
    agent.agent_name = rand_string(seed);
    agent.set("age".to_owned(), AgentValue::NumberBits(words[0]));
    let inner1 = crate::meta::vec2(words[1], words[2]);
    let inner2 = crate::meta::vec1(words[3]);
    let lists = crate::meta::vec2(inner1, inner2);
    agent.set("fixed_of_variable".to_owned(), AgentValue::ListOfNumberLists(lists));
    agent.set("seed".to_owned(), AgentValue::NumberBits(seed));
    agent
}

/// The dummy-agent schema together with `num_agents` seeded dummy agents.
/// The schema declares, beyond the reserved field, a numeric `age`, the
/// engine-owned identifier and name, a fixed pair of variable-length number
/// lists, and a numeric `seed`.
#[verifier::loop_isolation(false)]
pub fn gen_schema_and_test_agents(num_agents: usize, seed: u64) -> (r: Result<
    (AgentSchema, Vec<Agent>),
    Error,
>)
    ensures
        r is Ok,
        r matches Ok(t) ==> {
            &&& t.1@.len() == num_agents
            &&& materializes(t.0.field_spec_map.field_specs@, t.0.arrow)
            &&& t.0.field_spec_map.field_specs@.len() == 6
        },
{
    proof {
        reveal_strlit("previous_index");
        reveal_strlit("age");
        reveal_strlit("agent_id");
        reveal_strlit("agent_name");
        reveal_strlit("fixed_of_variable");
        reveal_strlit("seed");
    }
    let mut fields = match FieldSpecMap::default() {
        Ok(f) => f,
        Err(_) => {
            return Err(Error::Unique("empty default field map".to_owned()));
        },
    };
    let ghost base = fields.field_specs@;
    let age = FieldSpec {
        name: "age".to_owned(),
        field_type: FieldType { variant: FieldTypeVariant::Number, nullable: false },
        source: FieldSource::Engine,
        scope: FieldScope::Agent,
    };
    let agent_id = FieldSpec {
        name: "agent_id".to_owned(),
        field_type: FieldType {
            variant: FieldTypeVariant::Preset(PresetFieldType::Id),
            nullable: false,
        },
        source: FieldSource::Engine,
        scope: FieldScope::Agent,
    };
    let agent_name = FieldSpec {
        name: "agent_name".to_owned(),
        field_type: FieldType { variant: FieldTypeVariant::String, nullable: true },
        source: FieldSource::Engine,
        scope: FieldScope::Agent,
    };
    let fixed_of_variable = FieldSpec {
        name: "fixed_of_variable".to_owned(),
        field_type: FieldType {
            variant: FieldTypeVariant::FixedLengthArray {
                kind: Box::new(
                    FieldType {
                        variant: FieldTypeVariant::VariableLengthArray(
                            Box::new(
                                FieldType { variant: FieldTypeVariant::Number, nullable: false },
                            ),
                        ),
                        nullable: false,
                    },
                ),
                len: 2,
            },
            nullable: true,
        },
        source: FieldSource::Engine,
        scope: FieldScope::Agent,
    };
    let seed_field = FieldSpec {
        name: "seed".to_owned(),
        field_type: FieldType { variant: FieldTypeVariant::Number, nullable: true },
        source: FieldSource::Engine,
        scope: FieldScope::Agent,
    };
    proof {
        assert("previous_index"@.len() == 14);
        assert("age"@.len() == 3);
        assert("agent_id"@.len() == 8);
        assert("agent_name"@.len() == 10);
        assert("fixed_of_variable"@.len() == 17);
        assert("seed"@.len() == 4);
        assert(forall|i: int|
            0 <= i < fields.field_specs@.len() ==> (#[trigger] fields.field_specs@[i]).name@.len()
                == 14);
    }
    let r1 = fields.add(age);
    let r2 = fields.add(agent_id);
    let r3 = fields.add(agent_name);
    let r4 = fields.add(fixed_of_variable);
    let r5 = fields.add(seed_field);
    if r1.is_err() || r2.is_err() || r3.is_err() || r4.is_err() || r5.is_err() {
        return Err(Error::Unique("dummy schema field clash".to_owned()));
    }
    proof {
        assert(fields.field_specs@[0] == base[0]);
        assert(has_fixed_previous_index(fields.field_specs@));
    }
    let schema = match AgentSchema::new(fields) {
        Ok(s) => s,
        Err(_) => {
            return Err(Error::Unique("dummy schema lacks reserved field".to_owned()));
        },
    };
    let mut agents: Vec<Agent> = Vec::new();
    let mut i: usize = 0;
    while i < num_agents
        invariant
            0 <= i <= num_agents,
            agents@.len() == i,
        decreases num_agents - i,
    {
        let agent_seed = seed.wrapping_add(i as u64);
        agents.push(make_dummy_agent(agent_seed));
        i = i + 1;
    }
    Ok((schema, agents))
}

} // verus!
