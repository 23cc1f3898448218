use vstd::prelude::*;

verus! {

/// The message shown for an error that stopped a run.
pub fn format_runtime_error(error: &str) -> (r: String)
    ensures
        r@ == "🚨 Ошибка выполнения: "@ + error@,
{
    let mut s = String::from_str("🚨 Ошибка выполнения: ");
    s.append(error);
    s
}

/// The message shown when the interpreter itself failed.
pub fn handle_panic() -> (r: String)
    ensures
        r@ == "🚨 Произошла критическая ошибка при выполнении программы"@,
{
    String::from_str("🚨 Произошла критическая ошибка при выполнении программы")
}

} // verus!
