use sim_engine::agent::Agent;
use sim_engine::config::{Config, ConfigError};
use sim_engine::error::Error;
use sim_engine::fetch::parse_raw_csv_into_json;
use sim_engine::metaversion::Metaversion;
use sim_engine::orchestrator::{
    EngineMsg, EngineStatus, InitMessage, OrchClient, recv_init_msg,
};
use sim_engine::pipeline::{
    InitPackageSpec, InitPackages, JsInitTask, PackageSpec, PackageType, PyInitTask, StepPackages,
    WorkerHandler, collect_init_agents,
};
use sim_engine::shared_store::{Dataset, SharedStore};
use sim_engine::test_agents::gen_schema_and_test_agents;

#[test]
fn init_timeout() {
    let err = recv_init_msg(None).unwrap_err();
    match err {
        sim_engine::orchestrator::Error::Unique(m) => {
            assert_eq!(m, "receive init message timeout");
        }
        other => panic!("unexpected error: {:?}", other),
    }
}

#[test]
fn first_message_must_be_init() {
    let err = recv_init_msg(Some(EngineMsg::KillEngine)).unwrap_err();
    assert!(matches!(
        err,
        sim_engine::orchestrator::Error::UnexpectedEngineMsgExpectedInit
    ));

    let init = InitMessage {
        experiment_json: "{}".to_string(),
        execution_env_json: "{}".to_string(),
        dyn_payloads_json: "{}".to_string(),
    };
    let got = recv_init_msg(Some(EngineMsg::Init(init))).unwrap();
    assert_eq!(got.experiment_json, "{}");
    let _ = EngineStatus::Started;
}

#[test]
fn orch_client_clone_keeps_addresses() {
    let client = OrchClient::new("ipc://orchestrator", "exp-1").unwrap();
    let copy = client.try_clone().unwrap();
    assert_eq!(copy.url, "ipc://orchestrator");
    assert_eq!(copy.experiment_id, "exp-1");
}

#[test]
fn config_parses_globals() {
    let config = Config::new(r#"{"topology":{"wrapping":true}}"#, 4).unwrap();
    assert_eq!(config.run_id.len(), 36);
    assert_eq!(config.max_num_workers, 4);
    let base = config.to_base().unwrap();
    assert_eq!(base.run_id, config.run_id);
    assert_eq!(base.max_num_workers, 4);
}

#[test]
fn config_refuses_bad_globals() {
    let err = Config::new("not json", 4).unwrap_err();
    assert!(matches!(err, ConfigError::FromSerde(_)));
}

#[test]
fn parse_raw_csv() {
    let json = parse_raw_csv_into_json("a,b\nc,d".to_string()).unwrap();
    assert_eq!(json, r#"[["a","b"],["c","d"]]"#);
    let value: serde_json::Value = serde_json::from_str(&json).unwrap();
    assert_eq!(value[1][0], "c");
}

#[test]
fn parse_raw_csv_of_empty_text() {
    let json = parse_raw_csv_into_json(String::new()).unwrap();
    assert_eq!(json, "[]");
}

#[test]
fn shared_store_resolves_latest_dataset() {
    let store = SharedStore::new(vec![
        Dataset {
            shortname: "cities".to_string(),
            batch_id: "b0".to_string(),
            metaversion: Metaversion::new(0, 0),
        },
        Dataset {
            shortname: "cities".to_string(),
            batch_id: "b1".to_string(),
            metaversion: Metaversion::new(0, 0),
        },
    ])
    .unwrap();
    assert_eq!(store.len(), 2);
    assert_eq!(store.get("cities").unwrap().batch_id, "b1");
    assert!(store.get("missing").is_none());
}

#[test]
fn package_type_names() {
    assert_eq!(PackageType::Init.as_str(), "init");
    assert_eq!(PackageType::Context.as_str(), "context");
    assert_eq!(PackageType::State.as_str(), "state");
    assert_eq!(PackageType::Output.as_str(), "output");
}

#[test]
fn init_task_start_messages() {
    let js = JsInitTask { initial_state_source: "[]".to_string() };
    let start = js.start_message().unwrap();
    assert!(matches!(start.target, sim_engine::comms::MessageTarget::JavaScript));
    assert_eq!(start.payload.payload_json, "[]");

    let py = PyInitTask { initial_state_source: "[]".to_string() };
    let start = py.start_message().unwrap();
    assert!(matches!(start.target, sim_engine::comms::MessageTarget::Python));

    let packages = InitPackages::new(vec![
        InitPackageSpec::Json { initial_state_src: "[]".to_string() },
        InitPackageSpec::Js(js),
        InitPackageSpec::Py(py),
    ]);
    assert_eq!(packages.inner.len(), 3);
}

#[test]
fn collecting_init_results_concatenates_agents() {
    let mut a = Agent::empty();
    a.agent_name = "one".to_string();
    let mut b = Agent::empty();
    b.agent_name = "two".to_string();
    let mut c = Agent::empty();
    c.agent_name = "three".to_string();
    let agents = collect_init_agents(vec![Ok(vec![a, b]), Ok(vec![c])]).unwrap();
    let names: Vec<&str> = agents.iter().map(|a| a.agent_name.as_str()).collect();
    assert_eq!(names, vec!["one", "two", "three"]);
}

#[test]
fn failed_init_package_aborts_the_run() {
    let result = collect_init_agents(vec![
        Ok(vec![Agent::empty()]),
        Err(Error::Unique("boom".to_string())),
    ]);
    assert!(result.is_err());
}

fn package(name: &str, package_type: PackageType) -> PackageSpec {
    PackageSpec { package_type, name: name.to_string(), cpu_bound: true }
}

#[test]
fn empty_agent_pool_produces_well_formed_empty_context() {
    let step = StepPackages::new(
        vec![package("neighbors", PackageType::Context), package("api", PackageType::Context)],
        vec![],
        vec![package("json_state", PackageType::Output)],
    );
    let context = step.empty_context(0).unwrap();
    assert_eq!(context.num_agents, 0);
    assert_eq!(context.columns.len(), 2);
    for column in &context.columns {
        let meta = column.get_dynamic_metadata().unwrap();
        assert_eq!(meta.node_lengths, vec![0, 0]);
        // One empty offsets entry still exists for zero rows.
        assert_eq!(meta.buffer_byte_lengths, vec![4, 0]);
        let mut body: Vec<u8> = Vec::new();
        column.write(&mut body).unwrap();
        assert_eq!(body, vec![0, 0, 0, 0]);
    }
}

#[test]
fn context_columns_have_one_row_per_agent() {
    let step = StepPackages::new(vec![package("neighbors", PackageType::Context)], vec![], vec![]);
    let context = step.empty_context(3).unwrap();
    assert_eq!(context.columns.len(), 1);
    let meta = context.columns[0].get_dynamic_metadata().unwrap();
    assert_eq!(meta.node_lengths, vec![3, 0]);
    assert_eq!(meta.buffer_byte_lengths, vec![16, 0]);
}

#[test]
fn generated_schema_and_agents() {
    let (schema, agents) = gen_schema_and_test_agents(3, 42).unwrap();
    assert_eq!(agents.len(), 3);
    for agent in &agents {
        assert_eq!(agent.agent_id.len(), 36);
        assert!(agent.agent_name.len() < 64);
        assert_eq!(agent.custom.len(), 3);
        assert_eq!(agent.custom[0].0, "age");
    }
    assert_eq!(schema.arrow.fields.len(), 6);
    assert_eq!(schema.arrow.fields[0].name, "previous_index");
    // The fixed-size prefix is sorted by name after the reserved slot.
    let names: Vec<&str> = schema.arrow.fields.iter().map(|f| f.name.as_str()).collect();
    assert_eq!(
        names,
        vec!["previous_index", "age", "agent_id", "seed", "agent_name", "fixed_of_variable"]
    );
}
