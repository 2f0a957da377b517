use std::collections::HashMap;
use macro_gen::characterization::device_params::{
    assign_vector_param, check_showmod_params, extract_plan, ExtractRequest, let_vector_command, DeviceParams, missing_showmod_params, showmod_command,
    showmod_entries, showmod_params, strip_prefix_of_line, symbol_key, vector_name, vector_params,
    ExtractError, SymbolTable,
};
use macro_gen::characterization::inverter::{
    dc_sweep_command, sweep_offsets, DEFAULT_SWEEP_SAMPLE_COUNT, MEASURE_VTH_COMMAND, VTH_VECTOR,
};
use macro_gen::characterization::ngspice_ffi::{source_command, FfiError, NgspiceSession};
use macro_gen::characterization::normalize::{
    characterization_netlist, nmos_instance_path, pmos_instance_path, NetlistValues,
};
use macro_gen::config::Models;

fn showmod_lines() -> Vec<String> {
    [
        " BSIM4v5: Berkeley Short Channel IGFET Model-4",
        "     device m.xm1.msky130_fd_pr__",
        "      model   xm1:nshort_model.48",
        "       vsat                236293",
        "       toxe             4.148e-09",
        "     epsrox                   3.9",
        "         u0             0.0935552",
    ]
    .iter()
    .map(|s| s.to_string())
    .collect()
}

fn pair(k: &str, v: &str) -> (String, String) {
    (k.to_string(), v.to_string())
}

#[test]
fn showmod_lines_with_two_tokens_become_entries() {
    let entries = showmod_entries(&showmod_lines());
    assert_eq!(
        entries,
        vec![
            pair("device", "m.xm1.msky130_fd_pr__"),
            pair("model", "xm1:nshort_model.48"),
            pair("vsat", "236293"),
            pair("toxe", "4.148e-09"),
            pair("epsrox", "3.9"),
            pair("u0", "0.0935552"),
        ]
    );
    assert!(!entries.iter().any(|(k, _)| k == "BSIM4v5:"));
}

#[test]
fn parses_showmod_key_value_lines() {
    let mut values: HashMap<String, f64> = HashMap::new();
    for (key, value) in showmod_entries(&showmod_lines()) {
        if let Ok(v) = value.parse::<f64>() {
            values.insert(key, v);
        }
    }

    assert_eq!(values.get("vsat"), Some(&236293.0));
    assert_eq!(values.get("toxe"), Some(&4.148e-09));
    assert_eq!(values.get("epsrox"), Some(&3.9));
    assert_eq!(values.get("u0"), Some(&0.0935552));
    // Header lines with non-numeric second tokens must not be picked up.
    assert!(!values.contains_key("BSIM4v5:"));
}

#[test]
fn showmod_output_prefixes_are_stripped() {
    let lines = vec![
        "stdout        vsat                236293".to_string(),
        "stderr u0 0.09".to_string(),
        "stdout".to_string(),
        "stdout a b c".to_string(),
        "prefix vsat 1".to_string(),
    ];
    assert_eq!(
        showmod_entries(&lines),
        vec![pair("vsat", "236293"), pair("u0", "0.09")]
    );
    assert_eq!(strip_prefix_of_line("stdout stdout x"), "stdout x");
    assert_eq!(strip_prefix_of_line("stdoutx"), "stdoutx");
}

#[test]
fn missing_model_parameters_are_named() {
    assert_eq!(showmod_params(), vec!["u0", "vsat", "toxe", "epsrox"]);
    let present: Vec<String> = vec!["vsat".into(), "u0".into(), "device".into()];
    assert_eq!(missing_showmod_params(&present), vec!["toxe", "epsrox"]);
    assert_eq!(
        check_showmod_params("m.xnmos.mnfet", &present),
        Err(ExtractError::MissingShowmodParams(
            "m.xnmos.mnfet".to_string(),
            vec!["toxe", "epsrox"]
        ))
    );
    let all: Vec<String> = vec!["epsrox".into(), "toxe".into(), "vsat".into(), "u0".into()];
    assert_eq!(check_showmod_params("m.x", &all), Ok(()));
}

#[test]
fn vector_commands_name_instance_and_parameter() {
    assert_eq!(vector_params().len(), 11);
    assert_eq!(vector_params()[0], "vth");
    assert_eq!(vector_name("gm"), "gm_val");
    assert_eq!(
        let_vector_command("vth", "m.xnmos.mnfet"),
        "let vth_val = @m.xnmos.mnfet[vth]"
    );
    assert_eq!(showmod_command("m.xpmos.mpfet"), "showmod m.xpmos.mpfet");
    assert_eq!(source_command("/tmp/b/characterize.spice"), "source /tmp/b/characterize.spice");
}

#[test]
fn symbol_table_flattens_device_params_by_dotted_key() {
    let mut params = DeviceParams::filled(0.0);
    params.vth = 0.78;
    params.cox = 8.3e-3;
    let mut symbols = SymbolTable::new();
    symbols.insert_device_params("nmos", &params.as_named_fields());

    assert_eq!(symbols.get("nmos.vth"), Some(0.78));
    assert_eq!(symbols.get("nmos.cox"), Some(8.3e-3));
    assert_eq!(symbols.get("pmos.vth"), None);
    assert_eq!(symbols.len(), DeviceParams::filled(0.0).as_named_fields().len());
}

#[test]
fn derives_cox_and_ec() {
    const EPS0: f64 = 8.854e-12;
    let mut params = DeviceParams::filled(0.0);
    params.u0 = 0.0935552;
    params.vsat = 236293.0;
    params.toxe = 4.148e-9;
    params.epsrox = 3.9;
    params.cox = params.epsrox * EPS0 / params.toxe;
    params.ec = params.vsat / params.u0;

    assert!((params.cox - 8.325e-3).abs() < 1e-5);
    assert!((params.ec - 2.5257e6).abs() < 1e3);
}

#[test]
fn named_fields_come_in_report_order() {
    let mut params = DeviceParams::filled(0i64);
    params.id = 2;
    params.leff = 17;
    let named = params.as_named_fields();
    let names: Vec<&str> = named.iter().map(|(n, _)| *n).collect();
    assert_eq!(
        names,
        vec![
            "vth", "id", "u0", "vsat", "toxe", "epsrox", "cox", "ec", "gm", "cgg", "cgs", "cgd",
            "cdb", "csb", "vgsteff", "weff", "leff",
        ]
    );
    assert_eq!(named[1], ("id", 2));
    assert_eq!(named[16], ("leff", 17));
    assert_eq!(named[0], ("vth", 0));
}

#[test]
fn assigning_a_vector_param_changes_only_that_field() {
    for (k, name) in vector_params().into_iter().enumerate() {
        let mut params = DeviceParams::filled(0i64);
        assign_vector_param(&mut params, name, k as i64 + 1);
        let named = params.as_named_fields();
        for (n, v) in named {
            if n == name {
                assert_eq!(v, k as i64 + 1, "{name}");
            } else {
                assert_eq!(v, 0, "{name} changed {n}");
            }
        }
    }
}

#[test]
fn symbol_table_lists_symbols_sorted_once() {
    let mut t: SymbolTable<i64> = SymbolTable::default();
    assert!(t.is_empty());
    assert_eq!(t.len(), 0);
    t.insert("pmos.vth".to_string(), 1);
    t.insert("nmos.vth".to_string(), 2);
    t.insert("nmos.id".to_string(), 3);
    t.insert("pmos.vth".to_string(), 4);
    assert_eq!(t.len(), 3);
    assert_eq!(t.get("pmos.vth"), Some(4));
    assert_eq!(t.symbols(), vec!["nmos.id", "nmos.vth", "pmos.vth"]);
    assert_eq!(symbol_key("pmos", "cgg"), "pmos.cgg");
}

#[test]
fn session_drains_captured_lines_in_order() {
    let mut s = NgspiceSession::new();
    assert!(s.drain_output().is_empty());
    s.capture_output("first".to_string());
    s.capture_output("second".to_string());
    assert_eq!(s.drain_output(), vec!["first".to_string(), "second".to_string()]);
    assert!(s.drain_output().is_empty());
    s.capture_output("third".to_string());
    assert_eq!(s.drain_output(), vec!["third".to_string()]);
}

#[test]
fn library_status_codes_decide_outcomes() {
    assert_eq!(NgspiceSession::init_result(0), Ok(()));
    assert_eq!(NgspiceSession::init_result(1), Err(FfiError::InitFailed(1)));
    assert_eq!(NgspiceSession::command_result("op", 0), Ok(()));
    assert_eq!(
        NgspiceSession::command_result("op", -1),
        Err(FfiError::CommandFailed("op".to_string(), -1))
    );
    assert_eq!(NgspiceSession::check_text("op"), Ok(()));
    assert_eq!(
        NgspiceSession::check_text("o\0p"),
        Err(FfiError::NulInCommand("o\0p".to_string()))
    );
    assert_eq!(NgspiceSession::vector_result("v", true, true, 3), Ok(()));
    for (found, data, len) in [(false, true, 3), (true, false, 3), (true, true, 0)] {
        assert_eq!(
            NgspiceSession::vector_result("v", found, data, len),
            Err(FfiError::VectorUnavailable("v".to_string()))
        );
    }
}

#[test]
fn instance_paths_lowercase_the_model() {
    let models = Models {
        nmos: "SKY130_FD_PR__NFET_01V8".to_string(),
        pmos: "Sky130_Fd_Pr__Pfet_01v8".to_string(),
    };
    assert_eq!(nmos_instance_path(&models), "m.xnmos.msky130_fd_pr__nfet_01v8");
    assert_eq!(pmos_instance_path(&models), "m.xpmos.msky130_fd_pr__pfet_01v8");
}

#[test]
fn characterization_deck_text() {
    let v = NetlistValues {
        vdd: "1.8".into(),
        vdd_half: "0.9".into(),
        nmos_model: "nfet".into(),
        nmos_w: "1".into(),
        nmos_l: "0.15".into(),
        pmos_model: "pfet".into(),
        pmos_w: "1".into(),
        pmos_l: "0.15".into(),
        include_path: "/pdk/sky130.lib.spice".into(),
        corner: "tt".into(),
    };
    let expected = "* throwaway deck for device-parameter extraction; not for user inspection\n\
         Vdd VDD GND 1.8\n\
         Vgn gate_n GND 1.8\n\
         Vdn drain_n GND 0.9\n\
         XNMOS drain_n gate_n GND GND nfet w=1 l=0.15\n\
         \n\
         Vgp gate_p GND 0\n\
         Vdp drain_p GND 0.9\n\
         XPMOS drain_p gate_p VDD VDD pfet w=1 l=0.15\n\
         \n\
         .lib /pdk/sky130.lib.spice tt\n\
         .GLOBAL GND\n\
         .end\n";
    assert_eq!(characterization_netlist(&v), expected);
}

#[test]
fn sweep_is_centred_on_the_seed() {
    assert_eq!(DEFAULT_SWEEP_SAMPLE_COUNT, 11);
    assert_eq!(sweep_offsets(None), vec![-5, -4, -3, -2, -1, 0, 1, 2, 3, 4, 5]);
    assert_eq!(sweep_offsets(Some(11)), sweep_offsets(None));
    assert_eq!(sweep_offsets(Some(4)), vec![-2, -1, 0, 1]);
    assert_eq!(sweep_offsets(Some(3)), vec![-1, 0, 1]);
    assert_eq!(sweep_offsets(Some(1)), vec![0]);
    assert_eq!(sweep_offsets(Some(0)), Vec::<i32>::new());
    assert_eq!(dc_sweep_command("1.8"), "dc Vin 0 1.8 0.01");
    assert_eq!(
        MEASURE_VTH_COMMAND,
        "meas dc vth_meas WHEN v(net_out)=v(net_in) FALL=1"
    );
    assert_eq!(VTH_VECTOR, "vth_meas");
}

#[test]
fn extraction_runs_op_then_vectors_then_showmod() {
    let plan = extract_plan("m.xnmos.mnfet");
    assert_eq!(plan.len(), 1 + 2 * 11 + 2);
    assert_eq!(plan[0], ExtractRequest::Command("op".to_string()));
    assert_eq!(
        plan[1],
        ExtractRequest::Command("let vth_val = @m.xnmos.mnfet[vth]".to_string())
    );
    assert_eq!(plan[2], ExtractRequest::ReadVector("vth"));
    assert_eq!(
        plan[21],
        ExtractRequest::Command("let leff_val = @m.xnmos.mnfet[leff]".to_string())
    );
    assert_eq!(plan[22], ExtractRequest::ReadVector("leff"));
    assert_eq!(plan[23], ExtractRequest::Command("showmod m.xnmos.mnfet".to_string()));
    assert_eq!(plan[24], ExtractRequest::ReadShowmod);
}
