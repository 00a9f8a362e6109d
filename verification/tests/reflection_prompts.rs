use rainy_mate::reflection::success_analysis_prompt;

#[test]
fn success_prompt_carries_the_output() {
    let p = success_analysis_prompt("sum", "42");
    assert_eq!(
        p,
        "Analyze this successful task and suggest improvements:\nTask: sum\nOutput: 42\n\nSuggest:\n- Performance improvements\n- Quality enhancements\n- Efficiency gains\n\nReturn a JSON response with:\n- name (string)\n- description (string)\n- effectiveness (number 0-1)"
    );
}
