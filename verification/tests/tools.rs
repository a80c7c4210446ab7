use episod::models::tool::ToolDefinition;
use episod::tools::builtin::{calculator_plan, system_command_output, ArithOp, CalcPlan};
use episod::tools::policy::ToolPolicy;
use episod::tools::registry::ToolRegistry;

/// What the built-in calculator handler computes from its arguments.
fn run_calculator(reg: &ToolRegistry, raw: &str) -> Result<String, String> {
    let args_text = reg.call_arguments("calculator", raw)?;
    let args: serde_json::Value = serde_json::from_str(&args_text).unwrap();
    let expr = args.get("expression").and_then(|v| v.as_str()).unwrap_or("");
    match calculator_plan(expr) {
        CalcPlan::Apply { op, left, right } => {
            let n1: f64 = left.parse().map_err(|_| "Invalid number".to_string())?;
            let n2: f64 = right.parse().map_err(|_| "Invalid number".to_string())?;
            match op {
                ArithOp::Add => Ok((n1 + n2).to_string()),
                ArithOp::Sub => Ok((n1 - n2).to_string()),
                ArithOp::Mul => Ok((n1 * n2).to_string()),
                ArithOp::Div => {
                    if n2 == 0.0 {
                        Err("Division by zero".to_string())
                    } else {
                        Ok((n1 / n2).to_string())
                    }
                }
            }
        }
        CalcPlan::Echo(text) => Ok(text),
    }
}

#[test]
fn test_tool_registry_and_policy() {
    let mut reg = ToolRegistry::new();

    assert_eq!(reg.get_policy("calculator"), ToolPolicy::AutoApprove);
    assert_eq!(reg.get_policy("system_command"), ToolPolicy::RequireApproval);

    let res = run_calculator(&reg, r#"{"expression":"10 + 25"}"#).unwrap();
    assert_eq!(res, "35");

    let custom_def = ToolDefinition::new_function("custom", "test", "{}");
    reg.register_tool(custom_def, ToolPolicy::Deny);
    assert_eq!(reg.get_policy("custom"), ToolPolicy::Deny);
}

#[test]
fn unknown_tools_take_the_default_policy() {
    let mut reg = ToolRegistry::new();
    assert_eq!(reg.get_policy("nope"), ToolPolicy::AutoApprove);
    reg.set_policy("calculator", ToolPolicy::Deny);
    assert_eq!(reg.get_policy("calculator"), ToolPolicy::Deny);
    assert_eq!(reg.get_policy("system_command"), ToolPolicy::RequireApproval);
    assert_eq!(ToolPolicy::default(), ToolPolicy::AutoApprove);
}

#[test]
fn definitions_in_registration_order() {
    let reg = ToolRegistry::new();
    let defs = reg.get_definitions();
    let names: Vec<&str> = defs.iter().map(|d| d.function.name.as_str()).collect();
    assert_eq!(names, vec!["calculator", "system_command"]);
    assert_eq!(defs[0].tool_type, "function");
}

#[test]
fn call_arguments_errors() {
    let reg = ToolRegistry::new();
    assert_eq!(reg.call_arguments("missing", "{}"), Err("Tool 'missing' not found in registry".to_string()));
    assert_eq!(reg.call_arguments("calculator", "   "), Ok("{}".to_string()));
    let err = reg.call_arguments("calculator", "{oops").unwrap_err();
    assert!(err.starts_with("Invalid JSON arguments for tool 'calculator': "));
    assert_eq!(reg.call_arguments("calculator", "[1]"), Ok("[1]".to_string()));
}

#[test]
fn calculator_plans() {
    match calculator_plan(" 7 * 6 ") {
        CalcPlan::Apply { op, left, right } => {
            assert_eq!(op, ArithOp::Mul);
            assert_eq!(left, "7");
            assert_eq!(right, "6");
        }
        other => panic!("unexpected {:?}", other),
    }
    // '+' is tried before '-'
    match calculator_plan("3-1+2") {
        CalcPlan::Apply { op, left, right } => {
            assert_eq!(op, ArithOp::Add);
            assert_eq!(left, "3-1");
            assert_eq!(right, "2");
        }
        other => panic!("unexpected {:?}", other),
    }
    match calculator_plan("pi") {
        CalcPlan::Echo(t) => assert_eq!(t, "Evaluated: pi"),
        other => panic!("unexpected {:?}", other),
    }
    let reg = ToolRegistry::new();
    assert_eq!(run_calculator(&reg, r#"{"expression":"1/0"}"#), Err("Division by zero".to_string()));
    assert_eq!(run_calculator(&reg, r#"{"expression":"x+1"}"#), Err("Invalid number".to_string()));
}

#[test]
fn system_command_answer() {
    assert_eq!(system_command_output("ls"), "Executed command: 'ls' (success)");
}

#[test]
fn default_registry_is_the_builtin_one() {
    let reg = ToolRegistry::default();
    assert!(reg.has_tool("calculator"));
    assert!(reg.has_tool("system_command"));
    assert_eq!(reg.get_policy("system_command"), ToolPolicy::RequireApproval);
    assert_eq!(reg.get_definitions().len(), 2);
}
