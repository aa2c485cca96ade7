use std::cell::RefCell;
use vector_expr::evaluate::validate_bindings;
use vector_expr::numeric::StringComparison;
use vector_expr::parallel::{pack_block, parallel_comparison};
use vector_expr::registers::retain_by_capacity;
use vector_expr::{
    empty_binding_map, BindingId, BoolExpression, BoolRegister, EvaluateError, Expression,
    FloatExt, ParseError, ParseErrorKind, RealExpression, Registers, StringExpression, StringId,
};

#[derive(Clone, Copy, Debug, PartialEq)]
struct F64(f64);

impl FloatExt for F64 {
    fn plus_spec(self, rhs: Self) -> Self {
        F64(self.0 + rhs.0)
    }

    fn minus_spec(self, rhs: Self) -> Self {
        F64(self.0 - rhs.0)
    }

    fn times_spec(self, rhs: Self) -> Self {
        F64(self.0 * rhs.0)
    }

    fn over_spec(self, rhs: Self) -> Self {
        F64(self.0 / rhs.0)
    }

    fn powf_spec(self, rhs: Self) -> Self {
        F64(self.0.powf(rhs.0))
    }

    fn negated_spec(self) -> Self {
        F64(-self.0)
    }

    fn same_spec(self, rhs: Self) -> bool {
        self.0 == rhs.0
    }

    fn less_spec(self, rhs: Self) -> bool {
        self.0 < rhs.0
    }

    fn less_equal_spec(self, rhs: Self) -> bool {
        self.0 <= rhs.0
    }

    fn greater_spec(self, rhs: Self) -> bool {
        self.0 > rhs.0
    }

    fn greater_equal_spec(self, rhs: Self) -> bool {
        self.0 >= rhs.0
    }

    fn parse_literal(text: &str) -> Option<Self> {
        text.parse::<f64>().ok().map(F64)
    }

    fn plus(self, rhs: Self) -> Self {
        F64(self.0 + rhs.0)
    }

    fn minus(self, rhs: Self) -> Self {
        F64(self.0 - rhs.0)
    }

    fn times(self, rhs: Self) -> Self {
        F64(self.0 * rhs.0)
    }

    fn over(self, rhs: Self) -> Self {
        F64(self.0 / rhs.0)
    }

    fn powf(self, rhs: Self) -> Self {
        F64(self.0.powf(rhs.0))
    }

    fn negated(self) -> Self {
        F64(-self.0)
    }

    fn same(self, rhs: Self) -> bool {
        self.0 == rhs.0
    }

    fn less(self, rhs: Self) -> bool {
        self.0 < rhs.0
    }

    fn less_equal(self, rhs: Self) -> bool {
        self.0 <= rhs.0
    }

    fn greater(self, rhs: Self) -> bool {
        self.0 > rhs.0
    }

    fn greater_equal(self, rhs: Self) -> bool {
        self.0 >= rhs.0
    }
}

#[derive(Clone, Copy, Debug, PartialEq)]
struct F32(f32);

impl FloatExt for F32 {
    fn plus_spec(self, rhs: Self) -> Self {
        F32(self.0 + rhs.0)
    }

    fn minus_spec(self, rhs: Self) -> Self {
        F32(self.0 - rhs.0)
    }

    fn times_spec(self, rhs: Self) -> Self {
        F32(self.0 * rhs.0)
    }

    fn over_spec(self, rhs: Self) -> Self {
        F32(self.0 / rhs.0)
    }

    fn powf_spec(self, rhs: Self) -> Self {
        F32(self.0.powf(rhs.0))
    }

    fn negated_spec(self) -> Self {
        F32(-self.0)
    }

    fn same_spec(self, rhs: Self) -> bool {
        self.0 == rhs.0
    }

    fn less_spec(self, rhs: Self) -> bool {
        self.0 < rhs.0
    }

    fn less_equal_spec(self, rhs: Self) -> bool {
        self.0 <= rhs.0
    }

    fn greater_spec(self, rhs: Self) -> bool {
        self.0 > rhs.0
    }

    fn greater_equal_spec(self, rhs: Self) -> bool {
        self.0 >= rhs.0
    }

    fn parse_literal(text: &str) -> Option<Self> {
        text.parse::<f32>().ok().map(F32)
    }

    fn plus(self, rhs: Self) -> Self {
        F32(self.0 + rhs.0)
    }

    fn minus(self, rhs: Self) -> Self {
        F32(self.0 - rhs.0)
    }

    fn times(self, rhs: Self) -> Self {
        F32(self.0 * rhs.0)
    }

    fn over(self, rhs: Self) -> Self {
        F32(self.0 / rhs.0)
    }

    fn powf(self, rhs: Self) -> Self {
        F32(self.0.powf(rhs.0))
    }

    fn negated(self) -> Self {
        F32(-self.0)
    }

    fn same(self, rhs: Self) -> bool {
        self.0 == rhs.0
    }

    fn less(self, rhs: Self) -> bool {
        self.0 < rhs.0
    }

    fn less_equal(self, rhs: Self) -> bool {
        self.0 <= rhs.0
    }

    fn greater(self, rhs: Self) -> bool {
        self.0 > rhs.0
    }

    fn greater_equal(self, rhs: Self) -> bool {
        self.0 >= rhs.0
    }
}

fn reals(values: &[f64]) -> Vec<F64> {
    values.iter().map(|value| F64(*value)).collect()
}

fn singles(values: &[f32]) -> Vec<F32> {
    values.iter().map(|value| F32(*value)).collect()
}

fn rows(register: &BoolRegister) -> Vec<bool> {
    let unpacked = register.to_vec();
    assert_eq!(unpacked.len(), register.len());
    for (row, value) in unpacked.iter().enumerate() {
        assert_eq!(register.get(row), *value);
    }
    unpacked
}

#[test]
fn real_expression() {
    fn binding_map(var_name: &str) -> BindingId {
        match var_name {
            "bar" => 0,
            "baz" => 1,
            "foo" => 2,
            _ => unreachable!(),
        }
    }
    let parsed = Expression::parse("2 * (foo + bar) * -baz", binding_map).unwrap();
    let real = parsed.unwrap_real();

    let bar = reals(&[1.0, 2.0, 3.0]);
    let baz = reals(&[4.0, 5.0, 6.0]);
    let foo = reals(&[7.0, 8.0, 9.0]);
    let bindings: &[&[F64]] = &[&bar, &baz, &foo];
    let mut registers = Registers::new(3);
    let output = real.evaluate(bindings, &mut registers);
    assert_eq!(&output, &reals(&[-64.0, -100.0, -144.0]));
    assert_eq!(registers.num_allocations(), 3);
}

#[test]
fn real_op_precedence() {
    let mut registers = Registers::new(1);

    let parsed = Expression::<F32>::parse("1 * 2 + 3 * 4", empty_binding_map).unwrap();
    let real = parsed.unwrap_real();
    let output = real.evaluate_without_vars(&mut registers);
    assert_eq!(&output, &singles(&[14.0]));

    let parsed = Expression::<F32>::parse("8 / 4 * 3", empty_binding_map).unwrap();
    let real = parsed.unwrap_real();
    let output = real.evaluate_without_vars(&mut registers);
    assert_eq!(&output, &singles(&[6.0]));

    let parsed = Expression::<F32>::parse("4 ^ 3 ^ 2", empty_binding_map).unwrap();
    let real = parsed.unwrap_real();
    let output = real.evaluate_without_vars(&mut registers);
    assert_eq!(&output, &singles(&[262144.0]));
}

#[test]
fn bool_expression_with_real_bindings() {
    fn binding_map(var_name: &str) -> BindingId {
        match var_name {
            "bar" => 0,
            "baz" => 1,
            "foo" => 2,
            _ => unreachable!(),
        }
    }
    let parsed = Expression::parse("!(bar < foo && bar < baz)", binding_map).unwrap();
    let bool = parsed.unwrap_bool();

    let bar = reals(&[1.0, 6.0, 7.0]);
    let baz = reals(&[2.0, 5.0, 8.0]);
    let foo = reals(&[3.0, 4.0, 9.0]);
    let bindings: &[&[F64]] = &[&bar, &baz, &foo];
    let mut registers = Registers::new(3);
    let output = bool.evaluate(bindings, &[], |_| unreachable!(), &mut registers);
    assert_eq!([output.get(0), output.get(1), output.get(2)], [false, true, false]);
    assert_eq!(registers.num_allocations(), 3);
}

#[test]
fn bool_expression_with_real_and_string_bindings() {
    fn binding_map(var_name: &str) -> BindingId {
        match var_name {
            "foo" => 0,
            "bar" => 0,
            _ => unreachable!(),
        }
    }
    let parsed = Expression::parse("foo == \"foo_123\" && bar > 2", binding_map).unwrap();
    let bool = parsed.unwrap_bool();

    fn string_literal_id(value: &str) -> StringId {
        match value {
            "foo_123" => 0,
            _ => unreachable!(),
        }
    }

    let foo: Vec<StringId> = vec![0, 1, 0];
    let bar = reals(&[1.0, 2.0, 3.0]);
    let real_bindings: &[&[F64]] = &[&bar];
    let string_bindings: &[&[StringId]] = &[&foo];
    let mut registers = Registers::new(3);
    let output = bool.evaluate(
        real_bindings,
        string_bindings,
        string_literal_id,
        &mut registers,
    );
    assert_eq!([output.get(0), output.get(1), output.get(2)], [false, false, true]);
    assert_eq!(registers.num_allocations(), 5);
}

#[test]
fn naive_allocations_limited_by_recycling() {
    fn binding_map(var_name: &str) -> BindingId {
        match var_name {
            "bar" => 0,
            "baz" => 1,
            "foo" => 2,
            _ => unreachable!(),
        }
    }
    let parsed = Expression::parse(
        "foo + bar + baz + foo + bar + baz + foo + bar + baz",
        binding_map,
    )
    .unwrap();
    let real = parsed.unwrap_real();

    let bar = reals(&[1.0, 2.0, 3.0]);
    let baz = reals(&[4.0, 5.0, 6.0]);
    let foo = reals(&[7.0, 8.0, 9.0]);
    let bindings: &[&[F64]] = &[&bar, &baz, &foo];
    let mut registers = Registers::new(3);
    let output = real.evaluate(bindings, &mut registers);
    assert_eq!(&output, &reals(&[36.0, 45.0, 54.0]));
    assert_eq!(registers.num_allocations(), 2);
}

#[test]
fn real_bench() {
    fn binding_map(var_name: &str) -> BindingId {
        match var_name {
            "x" => 0,
            "y" => 1,
            "z" => 2,
            var => panic!("Unexpected variable: {var}"),
        }
    }
    let parsed = Expression::parse("(z + (z^2 - 4*x*y)^0.5) / (2*x)", binding_map).unwrap();
    let real = parsed.unwrap_real();

    const LEN: i32 = 10_000_000;
    let x: Vec<_> = (0..LEN).map(|i| F32(i as f32)).collect();
    let y: Vec<_> = (0..LEN).map(|i| F32((LEN - i) as f32)).collect();
    let z: Vec<_> = (0..LEN).map(|i| F32(((LEN / 2) - i) as f32)).collect();
    let bindings: &[&[F32]] = &[&x, &y, &z];

    let mut registers = Registers::new(LEN as usize);
    let start = std::time::Instant::now();
    let _output = real.evaluate(bindings, &mut registers);
    let elapsed = start.elapsed().as_millis();
    println!(
        "Took {elapsed} ms, {} ns per element",
        (1_000_000 * elapsed) / LEN as u128
    );
    assert_eq!(registers.num_allocations(), 3);
}

#[test]
fn parse_variable_names() {
    let vars = Expression::<F32>::parse_real_variable_names("v1_dest + x + y + z99").unwrap();
    assert!(vars.iter().any(|name| name == "x"), "{vars:?}");
    assert!(vars.iter().any(|name| name == "y"), "{vars:?}");
    assert!(vars.iter().any(|name| name == "z99"), "{vars:?}");
    assert!(vars.iter().any(|name| name == "v1_dest"), "{vars:?}");
    let vars = Expression::<F32>::parse_string_variable_names("x == \"W\"").unwrap();
    assert!(vars.iter().any(|name| name == "x"), "{vars:?}");
}

#[test]
fn parse_comparisons() {
    fn binding_map(var_name: &str) -> BindingId {
        match var_name {
            "x" => 0,
            "y" => 1,
            _ => unreachable!(),
        }
    }
    Expression::<F32>::parse("x == y", binding_map).unwrap();
    Expression::<F32>::parse("x != y", binding_map).unwrap();
    Expression::<F32>::parse("x > y", binding_map).unwrap();
    Expression::<F32>::parse("x < y", binding_map).unwrap();
    Expression::<F32>::parse("x <= y", binding_map).unwrap();
    Expression::<F32>::parse("x >= y", binding_map).unwrap();
}

/// A numeric type of whole numbers, which reads no literal with a point or
/// an exponent.
#[derive(Clone, Copy, Debug, PartialEq)]
struct Whole(i64);

impl FloatExt for Whole {
    fn plus_spec(self, rhs: Self) -> Self {
        Whole(self.0.wrapping_add(rhs.0))
    }

    fn minus_spec(self, rhs: Self) -> Self {
        Whole(self.0.wrapping_sub(rhs.0))
    }

    fn times_spec(self, rhs: Self) -> Self {
        Whole(self.0.wrapping_mul(rhs.0))
    }

    fn over_spec(self, rhs: Self) -> Self {
        Whole(self.0.checked_div(rhs.0).unwrap_or(0))
    }

    fn powf_spec(self, rhs: Self) -> Self {
        Whole(self.0.wrapping_pow(rhs.0 as u32))
    }

    fn negated_spec(self) -> Self {
        Whole(self.0.wrapping_neg())
    }

    fn same_spec(self, rhs: Self) -> bool {
        self.0 == rhs.0
    }

    fn less_spec(self, rhs: Self) -> bool {
        self.0 < rhs.0
    }

    fn less_equal_spec(self, rhs: Self) -> bool {
        self.0 <= rhs.0
    }

    fn greater_spec(self, rhs: Self) -> bool {
        self.0 > rhs.0
    }

    fn greater_equal_spec(self, rhs: Self) -> bool {
        self.0 >= rhs.0
    }

    fn parse_literal(text: &str) -> Option<Self> {
        text.parse::<i64>().ok().map(Whole)
    }

    fn plus(self, rhs: Self) -> Self {
        self.plus_spec(rhs)
    }

    fn minus(self, rhs: Self) -> Self {
        self.minus_spec(rhs)
    }

    fn times(self, rhs: Self) -> Self {
        self.times_spec(rhs)
    }

    fn over(self, rhs: Self) -> Self {
        self.over_spec(rhs)
    }

    fn powf(self, rhs: Self) -> Self {
        self.powf_spec(rhs)
    }

    fn negated(self) -> Self {
        self.negated_spec()
    }

    fn same(self, rhs: Self) -> bool {
        self.same_spec(rhs)
    }

    fn less(self, rhs: Self) -> bool {
        self.less_spec(rhs)
    }

    fn less_equal(self, rhs: Self) -> bool {
        self.less_equal_spec(rhs)
    }

    fn greater(self, rhs: Self) -> bool {
        self.greater_spec(rhs)
    }

    fn greater_equal(self, rhs: Self) -> bool {
        self.greater_equal_spec(rhs)
    }
}

fn abc(var_name: &str) -> BindingId {
    match var_name {
        "a" => 0,
        "b" => 1,
        "c" => 2,
        _ => unreachable!(),
    }
}

fn no_literals(_: &str) -> StringId {
    unreachable!()
}

fn real_tree(text: &str) -> RealExpression<F64> {
    Expression::parse(text, abc).unwrap().unwrap_real()
}

fn bool_tree(text: &str) -> BoolExpression<F64> {
    Expression::parse(text, abc).unwrap().unwrap_bool()
}

fn value_of(text: &str) -> f64 {
    let mut registers = Registers::new(1);
    real_tree(text).evaluate_without_vars(&mut registers)[0].0
}

fn error_of(text: &str) -> ParseError {
    Expression::<F64>::parse(text, abc).unwrap_err()
}

#[test]
fn evaluation_is_deterministic_from_cold_pools() {
    let a = reals(&[1.5, -2.0, 0.0, 8.0]);
    let b = reals(&[0.5, 4.0, 3.0, -1.0]);
    let c = reals(&[2.0, 2.0, 2.0, 2.0]);
    let bindings: &[&[F64]] = &[&a, &b, &c];

    let tree = real_tree("(a + b) * c - a / (b ^ c)");
    let first = tree.evaluate(bindings, &mut Registers::new(4));
    let second = tree.evaluate(bindings, &mut Registers::new(4));
    assert_eq!(first, second);
    assert_eq!(first[0], F64((1.5 + 0.5) * 2.0 - 1.5 / 0.25));

    let tree = bool_tree("a < b && !(c == b) || a >= c");
    let first = tree.evaluate(bindings, &[], no_literals, &mut Registers::new(4));
    let second = tree.evaluate(bindings, &[], no_literals, &mut Registers::new(4));
    assert_eq!(rows(&first), rows(&second));
    assert_eq!(rows(&first), vec![false, true, true, true]);
}

#[test]
fn output_does_not_depend_on_the_pool() {
    let a = reals(&[1.0, 2.0, 3.0]);
    let b = reals(&[10.0, 20.0, 30.0]);
    let c = reals(&[0.0, 0.0, 0.0]);
    let bindings: &[&[F64]] = &[&a, &b, &c];
    let tree = real_tree("(a + b) * (b - a)");
    let mut registers = Registers::new(3);
    let cold = tree.evaluate(bindings, &mut registers);
    assert_eq!(registers.num_allocations(), 3);
    let warm = tree.evaluate(bindings, &mut registers);
    assert_eq!(cold, warm);
    assert_eq!(cold, reals(&[99.0, 396.0, 891.0]));
    // The two operand registers of the first run serve the second run; its
    // output takes the third.
    assert_eq!(registers.num_allocations(), 4);
}

#[test]
fn negation_applied_twice_is_identity() {
    let a = reals(&[1.0, -2.5, 1e300, -1e-300, 42.0]);
    let bindings: &[&[F64]] = &[&a];
    let output = real_tree("- -a").evaluate(bindings, &mut Registers::new(5));
    assert_eq!(output, a);
    let once = real_tree("-a").evaluate(bindings, &mut Registers::new(5));
    assert_eq!(once, reals(&[-1.0, 2.5, -1e300, 1e-300, -42.0]));
}

#[test]
fn logical_negation_applied_twice_is_identity() {
    let a = reals(&[1.0, 5.0, 3.0, 3.0]);
    let b = reals(&[2.0, 4.0, 3.0, 9.0]);
    let bindings: &[&[F64]] = &[&a, &b];
    let plain = bool_tree("a < b").evaluate(bindings, &[], no_literals, &mut Registers::new(4));
    let once = bool_tree("!(a < b)").evaluate(bindings, &[], no_literals, &mut Registers::new(4));
    let twice = bool_tree("!!(a < b)").evaluate(bindings, &[], no_literals, &mut Registers::new(4));
    assert_eq!(rows(&plain), vec![true, false, false, true]);
    assert_eq!(rows(&once), vec![false, true, true, false]);
    assert_eq!(rows(&twice), rows(&plain));
}

#[test]
fn comparisons_are_mutual_complements() {
    let a = reals(&[1.0, 2.0, 3.0, -0.0]);
    let b = reals(&[2.0, 2.0, 1.0, 0.0]);
    let bindings: &[&[F64]] = &[&a, &b];
    let run = |text: &str| {
        rows(&bool_tree(text).evaluate(bindings, &[], no_literals, &mut Registers::new(4)))
    };
    let less = run("a < b");
    let equal = run("a == b");
    let greater = run("a > b");
    assert_eq!(less, vec![true, false, false, false]);
    assert_eq!(equal, vec![false, true, false, true]);
    assert_eq!(greater, vec![false, false, true, false]);
    for row in 0..4 {
        let holding = [less[row], equal[row], greater[row]];
        assert_eq!(holding.iter().filter(|holds| **holds).count(), 1);
    }
    let not_equal = run("a != b");
    let negated: Vec<bool> = equal.iter().map(|holds| !holds).collect();
    assert_eq!(not_equal, negated);
    assert_eq!(run("a <= b"), vec![true, true, false, true]);
    assert_eq!(run("a >= b"), vec![false, true, true, true]);
}

#[test]
fn comparisons_with_nan_follow_the_numeric_type() {
    let a = reals(&[f64::NAN, 1.0]);
    let b = reals(&[f64::NAN, f64::NAN]);
    let bindings: &[&[F64]] = &[&a, &b];
    let run = |text: &str| {
        rows(&bool_tree(text).evaluate(bindings, &[], no_literals, &mut Registers::new(2)))
    };
    assert_eq!(run("a == b"), vec![false, false]);
    assert_eq!(run("a != b"), vec![true, true]);
    assert_eq!(run("a < b"), vec![false, false]);
    assert_eq!(run("a >= b"), vec![false, false]);
}

#[test]
fn string_equality_with_an_interned_literal() {
    let tree: BoolExpression<F64> = BoolExpression::StrEqual(
        StringExpression::Binding(0),
        StringExpression::Literal("foo_123".to_string()),
    );
    let foo: Vec<StringId> = vec![0, 1, 0];
    let string_bindings: &[&[StringId]] = &[&foo];
    let intern = |text: &str| match text {
        "foo_123" => 0,
        _ => unreachable!(),
    };
    let mut registers = Registers::new(3);
    let output = tree.evaluate(&[], string_bindings, intern, &mut registers);
    assert_eq!(rows(&output), vec![true, false, true]);
    // One register for the broadcast literal, one for the output.
    assert_eq!(registers.num_allocations(), 2);
}

#[test]
fn string_inequality_and_literals_on_either_side() {
    let names: Vec<StringId> = vec![7, 8, 9, 7];
    let string_bindings: &[&[StringId]] = &[&names];
    let intern = |text: &str| match text {
        "seven" => 7,
        "nine" => 9,
        _ => unreachable!(),
    };
    let run = |text: &str| {
        let tree = Expression::<F64>::parse(text, abc).unwrap().unwrap_bool();
        rows(&tree.evaluate(&[], string_bindings, intern, &mut Registers::new(4)))
    };
    assert_eq!(run("a != \"seven\""), vec![false, true, true, false]);
    assert_eq!(run("\"nine\" == a"), vec![false, false, true, false]);
    assert_eq!(run("\"nine\" == \"seven\""), vec![false, false, false, false]);
    assert_eq!(run("\"nine\" != \"seven\""), vec![true, true, true, true]);
    assert_eq!(run("a == \"seven\" || a == \"nine\""), vec![true, false, true, true]);
}

#[test]
fn each_literal_is_interned_once_per_evaluation_in_order() {
    let names: Vec<StringId> = vec![1, 2];
    let string_bindings: &[&[StringId]] = &[&names];
    let tree = Expression::<F64>::parse("a == \"x\" && !(\"y\" != a) || a == \"x\"", abc)
        .unwrap()
        .unwrap_bool();
    let mut asked: Vec<String> = Vec::new();
    let mut registers = Registers::new(2);
    let output = tree.evaluate(
        &[],
        string_bindings,
        |text: &str| {
            asked.push(text.to_string());
            if text == "x" {
                1
            } else {
                2
            }
        },
        &mut registers,
    );
    assert_eq!(asked, vec!["x", "y", "x"]);
    assert_eq!(rows(&output), vec![true, false]);
    let mut again: Vec<String> = Vec::new();
    tree.evaluate(
        &[],
        string_bindings,
        |text: &str| {
            again.push(text.to_string());
            0
        },
        &mut registers,
    );
    assert_eq!(again, vec!["x", "y", "x"]);
}

#[test]
fn end_to_end_product() {
    fn binding_map(var_name: &str) -> BindingId {
        match var_name {
            "bar" => 0,
            "baz" => 1,
            "foo" => 2,
            _ => unreachable!(),
        }
    }
    let tree = Expression::parse("2 * (foo + bar) * baz", binding_map).unwrap().unwrap_real();
    let bar = reals(&[1.0, 2.0, 3.0]);
    let baz = reals(&[4.0, 5.0, 6.0]);
    let foo = reals(&[7.0, 8.0, 9.0]);
    let bindings: &[&[F64]] = &[&bar, &baz, &foo];
    let output = tree.evaluate(bindings, &mut Registers::new(3));
    assert_eq!(output, reals(&[64.0, 100.0, 144.0]));
}

#[test]
fn real_operations_apply_row_by_row() {
    let a = reals(&[6.0, -1.0, 0.0]);
    let b = reals(&[3.0, 0.0, 0.0]);
    let bindings: &[&[F64]] = &[&a, &b];
    let run = |text: &str| real_tree(text).evaluate(bindings, &mut Registers::new(3));
    assert_eq!(run("a + b"), reals(&[9.0, -1.0, 0.0]));
    assert_eq!(run("a - b"), reals(&[3.0, -1.0, 0.0]));
    assert_eq!(run("a * b"), reals(&[18.0, -0.0, 0.0]));
    assert_eq!(run("a ^ b"), reals(&[216.0, 1.0, 1.0]));
    let quotient = run("a / b");
    assert_eq!(quotient[0], F64(2.0));
    assert_eq!(quotient[1], F64(f64::NEG_INFINITY));
    assert!(quotient[2].0.is_nan());
    assert_eq!(run("a"), a);
    assert_eq!(run("2.5"), reals(&[2.5, 2.5, 2.5]));
    assert_eq!(run("b - 1.5e1"), reals(&[-12.0, -15.0, -15.0]));
}

#[test]
fn a_lone_binding_or_literal_takes_one_register() {
    let a = reals(&[1.0, 2.0]);
    let bindings: &[&[F64]] = &[&a];
    let mut registers = Registers::new(2);
    assert_eq!(real_tree("a").evaluate(bindings, &mut registers), a);
    assert_eq!(registers.num_allocations(), 1);
    assert_eq!(real_tree("7").evaluate(bindings, &mut registers), reals(&[7.0, 7.0]));
    assert_eq!(registers.num_allocations(), 2);
    // An operator on bindings reads the columns in place.
    assert_eq!(real_tree("a + a").evaluate(bindings, &mut registers), reals(&[2.0, 4.0]));
    assert_eq!(registers.num_allocations(), 3);
}

#[test]
fn comparison_over_many_blocks() {
    for n in [0usize, 1, 63, 64, 65, 127, 128, 129, 1000] {
        let lhs: Vec<F64> = (0..n).map(|i| F64((i % 7) as f64)).collect();
        let rhs: Vec<F64> = (0..n).map(|i| F64((i % 5) as f64)).collect();
        let bindings: &[&[F64]] = &[&lhs, &rhs];
        let mut registers = Registers::new(n);
        let output = bool_tree("a < b").evaluate(bindings, &[], no_literals, &mut registers);
        let expected: Vec<bool> = (0..n).map(|i| (i % 7) < (i % 5)).collect();
        assert_eq!(rows(&output), expected);
        let output = bool_tree("!(a < b) && a != b || b == 0")
            .evaluate(bindings, &[], no_literals, &mut registers);
        let expected: Vec<bool> = (0..n).map(|i| (i % 7) > (i % 5) || i % 5 == 0).collect();
        assert_eq!(rows(&output), expected);
    }
}

#[test]
fn a_block_packs_the_first_row_into_the_lowest_bit() {
    assert_eq!(pack_block(StringComparison::Equal, &[1, 2, 3], &[1, 0, 3]), 0b101);
    assert_eq!(pack_block(StringComparison::NotEqual, &[1, 2, 3], &[1, 0, 3]), 0b010);
    assert_eq!(pack_block(StringComparison::Equal, &[], &[]), 0);
    let word = usize::BITS as usize;
    let lhs: Vec<StringId> = (0..word as u32).collect();
    let rhs: Vec<StringId> = (0..word as u32).map(|i| if i == 0 { 1 } else { i }).collect();
    assert_eq!(pack_block(StringComparison::Equal, &lhs, &rhs), usize::MAX - 1);
}

#[test]
fn columns_are_compared_into_an_empty_register() {
    for n in [0usize, 5, 64, 200] {
        let lhs: Vec<StringId> = (0..n as u32).map(|i| i % 3).collect();
        let rhs: Vec<StringId> = (0..n as u32).map(|i| i % 2).collect();
        let mut output = BoolRegister::with_capacity(n);
        assert_eq!(output.len(), 0);
        parallel_comparison(StringComparison::NotEqual, &lhs, &rhs, &mut output);
        let expected: Vec<bool> = (0..n).map(|i| i % 3 != i % 2).collect();
        assert_eq!(rows(&output), expected);
    }
}

#[test]
fn recycled_registers_come_back_empty() {
    let a = reals(&[1.0, 2.0, 3.0]);
    let b = reals(&[3.0, 2.0, 1.0]);
    let bindings: &[&[F64]] = &[&a, &b];
    let mut registers = Registers::new(3);
    let tree = bool_tree("a < b && a + 1 < b + b");
    let first = tree.evaluate(bindings, &[], no_literals, &mut registers);
    let allocated = registers.num_allocations();
    let second = tree.evaluate(bindings, &[], no_literals, &mut registers);
    assert_eq!(first.len(), 3);
    assert_eq!(second.len(), 3);
    assert_eq!(rows(&first), vec![true, false, false]);
    assert_eq!(rows(&second), rows(&first));
    // The second run finds every intermediate register in the pool and
    // allocates its output only.
    assert_eq!(registers.num_allocations(), allocated + 1);
}

#[test]
fn changing_the_register_length_drops_registers_without_room() {
    let a = reals(&[1.0, 2.0, 3.0]);
    let bindings: &[&[F64]] = &[&a];
    let mut registers = Registers::new(3);
    let tree = real_tree("(a + 1) * (a + 2)");
    tree.evaluate(bindings, &mut registers);
    assert_eq!(registers.num_allocations(), 3);
    assert_eq!(registers.register_length(), 3);

    // Two idle registers with room for three rows stay for two rows.
    registers.set_register_length(2);
    assert_eq!(registers.register_length(), 2);
    let short = reals(&[1.0, 2.0]);
    let bindings: &[&[F64]] = &[&short];
    assert_eq!(tree.evaluate(bindings, &mut registers), reals(&[6.0, 12.0]));
    assert_eq!(registers.num_allocations(), 4);

    // None of them has room for a hundred thousand rows.
    registers.set_register_length(100_000);
    let long: Vec<F64> = (0..100_000).map(|i| F64(i as f64)).collect();
    let bindings: &[&[F64]] = &[&long];
    let output = tree.evaluate(bindings, &mut registers);
    assert_eq!(output[99_999], F64(100_000.0 * 100_001.0));
    assert_eq!(registers.num_allocations(), 7);
}

#[test]
fn registers_stay_by_the_room_of_their_allocations() {
    let pool = vec!["a", "b", "c", "d", "e"];
    let capacities = vec![4, 0, 9, 3, 4];
    let staying = |rows: usize| {
        let mut pool = pool.clone();
        retain_by_capacity(&mut pool, &capacities, rows);
        pool
    };
    assert_eq!(staying(0), pool);
    assert_eq!(staying(1), vec!["a", "c", "d", "e"]);
    assert_eq!(staying(4), vec!["a", "c", "e"]);
    assert_eq!(staying(5), vec!["c"]);
    assert_eq!(staying(9), vec!["c"]);
    assert!(staying(10).is_empty());
    let mut none: Vec<&str> = Vec::new();
    retain_by_capacity(&mut none, &Vec::new(), 3);
    assert!(none.is_empty());
}

#[test]
fn bindings_are_validated_against_the_register_length() {
    let a = reals(&[1.0, 2.0, 3.0]);
    let b = reals(&[1.0, 2.0]);
    let same: &[&[F64]] = &[&a, &a];
    let mixed: &[&[F64]] = &[&a, &b];
    let none: &[&[F64]] = &[];
    assert!(validate_bindings(same, 3));
    assert!(!validate_bindings(same, 2));
    assert!(!validate_bindings(mixed, 3));
    assert!(!validate_bindings(mixed, 2));
    assert!(validate_bindings(none, 5));
}

#[test]
fn evaluation_is_refused_over_the_wrong_columns() {
    let a = reals(&[1.0, 2.0, 3.0]);
    let b = reals(&[1.0, 2.0]);
    let ids: Vec<StringId> = vec![1, 2, 3];
    let mut registers = Registers::new(3);

    let tree = real_tree("a + b");
    assert_eq!(
        tree.try_evaluate(&[&a, &b], &mut registers),
        Err(EvaluateError::InconsistentBindingLength)
    );
    assert_eq!(tree.try_evaluate(&[&a], &mut registers), Err(EvaluateError::BindingOutOfBounds));
    assert_eq!(
        tree.try_evaluate(&[&b], &mut registers),
        Err(EvaluateError::InconsistentBindingLength)
    );
    assert_eq!(registers.num_allocations(), 0);
    assert_eq!(tree.try_evaluate(&[&a, &a], &mut registers), Ok(reals(&[2.0, 4.0, 6.0])));
    assert_eq!(registers.num_allocations(), 1);

    let tree = bool_tree("a < 2 && b == \"x\"");
    let interned: RefCell<usize> = RefCell::new(0);
    let intern = |_: &str| {
        *interned.borrow_mut() += 1;
        2
    };
    let refused = |reals: &[&[F64]], strings: &[&[StringId]], registers: &mut Registers<F64>| {
        tree.try_evaluate(reals, strings, intern, registers).err()
    };
    assert_eq!(
        refused(&[&b], &[&ids, &ids], &mut registers),
        Some(EvaluateError::InconsistentBindingLength)
    );
    assert_eq!(
        refused(&[&a], &[&ids, &ids[..2]], &mut registers),
        Some(EvaluateError::InconsistentBindingLength)
    );
    assert_eq!(refused(&[&a], &[&ids], &mut registers), Some(EvaluateError::BindingOutOfBounds));
    assert_eq!(
        refused(&[], &[&ids, &ids], &mut registers),
        Some(EvaluateError::BindingOutOfBounds)
    );
    assert_eq!(*interned.borrow(), 0);
    assert_eq!(registers.num_allocations(), 1);
    let output = tree.try_evaluate(&[&a], &[&ids, &ids], intern, &mut registers).ok().unwrap();
    assert_eq!(rows(&output), vec![false, false, false]);
    assert_eq!(*interned.borrow(), 1);

    let mut registers = Registers::<F64>::new(usize::MAX);
    assert_eq!(
        bool_tree("1 < 2").try_evaluate(&[], &[], no_literals, &mut registers).err(),
        Some(EvaluateError::TooManyRows)
    );
}

#[test]
fn bindings_are_tested_against_the_number_of_columns() {
    assert!(real_tree("a + b").is_bound_by(2));
    assert!(!real_tree("a + c").is_bound_by(2));
    assert!(real_tree("1 + 2").is_bound_by(0));
    assert!(bool_tree("a < b").is_bound_by(2, 0));
    assert!(!bool_tree("a < b").is_bound_by(1, 5));
    assert!(bool_tree("a == \"x\" && c > 1").is_bound_by(3, 1));
    assert!(!bool_tree("c == \"x\"").is_bound_by(3, 2));
    assert!(StringExpression::Binding(1).is_bound_by(2));
    assert!(!StringExpression::Binding(2).is_bound_by(2));
    assert!(StringExpression::Literal("x".to_string()).is_bound_by(0));
}

#[test]
fn unwrapping_gives_the_tree_of_the_kind() {
    let parsed = Expression::<F64>::parse("\"abc\"", abc).unwrap();
    assert!(matches!(
        parsed.clone().unwrap_string(),
        StringExpression::Literal(text) if text == "abc"
    ));
    let parsed = Expression::<F64>::parse("b", abc).unwrap();
    assert!(matches!(parsed.unwrap_real(), RealExpression::Binding(1)));
    let parsed = Expression::<F64>::parse("b == c", abc).unwrap();
    assert!(matches!(parsed.unwrap_bool(), BoolExpression::Equal(_, _)));
    let parsed = Expression::<F64>::parse("b == \"c\"", abc).unwrap();
    assert!(matches!(
        parsed.unwrap_bool(),
        BoolExpression::StrEqual(StringExpression::Binding(1), StringExpression::Literal(_))
    ));
}

#[test]
fn operators_group_by_precedence() {
    assert_eq!(value_of("1 * 2 + 3 * 4"), 14.0);
    assert_eq!(value_of("8 / 4 * 3"), 6.0);
    assert_eq!(value_of("4 ^ 3 ^ 2"), 262144.0);
    assert_eq!(value_of("1 - 2 - 3"), -4.0);
    assert_eq!(value_of("2 + 3 * 4 ^ 2"), 50.0);
    assert_eq!(value_of("(2 + 3) * 4"), 20.0);
    assert_eq!(value_of("2 * -3"), -6.0);
    assert_eq!(value_of("-2 ^ 2"), 4.0);
    assert_eq!(value_of("2 ^ -1"), 0.5);
    assert_eq!(value_of(" \t12.5e-1\n"), 1.25);
    assert_eq!(value_of("((7))"), 7.0);
    let a = reals(&[1.0]);
    let b = reals(&[2.0]);
    let c = reals(&[3.0]);
    let bindings: &[&[F64]] = &[&a, &b, &c];
    let truth = |text: &str| {
        bool_tree(text).evaluate(bindings, &[], no_literals, &mut Registers::new(1)).get(0)
    };
    // Logic is looser than comparison, which is looser than arithmetic.
    assert!(truth("a + b == c && c > b"));
    assert!(truth("a > b || b < c"));
    // `&&` and `||` bind alike and group from the left.
    assert!(!truth("a < b || b < c && a > c"));
    assert!(truth("a > c && b > c || a < b"));
}

#[test]
fn the_binding_map_is_asked_once_for_each_occurrence_in_order() {
    let asked: RefCell<Vec<String>> = RefCell::new(Vec::new());
    let binding_map = |name: &str| {
        asked.borrow_mut().push(name.to_string());
        asked.borrow().len()
    };
    let parsed = Expression::<F64>::parse("x1 + y * x1 - _z", binding_map).unwrap();
    assert_eq!(*asked.borrow(), vec!["x1", "y", "x1", "_z"]);
    assert!(parsed.unwrap_real().is_bound_by(5));
    let asked: RefCell<Vec<String>> = RefCell::new(Vec::new());
    let binding_map = |name: &str| {
        asked.borrow_mut().push(name.to_string());
        0
    };
    assert!(Expression::<F64>::parse("x + y +", binding_map).is_err());
    assert!(Expression::<F64>::parse("x && y", binding_map).is_err());
    assert!(asked.borrow().is_empty());
}

#[test]
fn each_parse_error_names_its_place() {
    let at = |kind, position| ParseError { kind, position };
    assert_eq!(error_of("1 $ 2"), at(ParseErrorKind::UnexpectedCharacter, 2));
    assert_eq!(error_of("a = b"), at(ParseErrorKind::UnexpectedCharacter, 2));
    assert_eq!(error_of("a & b"), at(ParseErrorKind::UnexpectedCharacter, 2));
    assert_eq!(error_of("a == \"bc"), at(ParseErrorKind::UnterminatedString, 5));
    assert_eq!(error_of("1 2"), at(ParseErrorKind::UnexpectedToken, 2));
    assert_eq!(error_of("(1 + 2))"), at(ParseErrorKind::UnexpectedToken, 7));
    assert_eq!(error_of("* 2"), at(ParseErrorKind::UnexpectedToken, 0));
    assert_eq!(error_of("1 +"), at(ParseErrorKind::UnexpectedEnd, 3));
    assert_eq!(error_of("(1 + 2"), at(ParseErrorKind::UnexpectedEnd, 6));
    assert_eq!(error_of(""), at(ParseErrorKind::UnexpectedEnd, 0));
    assert_eq!(error_of("1 && 2"), at(ParseErrorKind::MismatchedOperands, 2));
    assert_eq!(error_of("a < b < c"), at(ParseErrorKind::MismatchedOperands, 6));
    assert_eq!(error_of("!a"), at(ParseErrorKind::MismatchedOperands, 0));
    assert_eq!(error_of("-\"a\""), at(ParseErrorKind::MismatchedOperands, 0));
    assert_eq!(error_of("\"a\" + 1"), at(ParseErrorKind::MismatchedOperands, 4));
    assert_eq!(error_of("\"a\" == 1"), at(ParseErrorKind::MismatchedOperands, 4));
    assert_eq!(
        Expression::<Whole>::parse("a + 12 * 1.5", abc).unwrap_err(),
        at(ParseErrorKind::InvalidLiteral, 9)
    );
}

#[test]
fn the_engine_serves_any_numeric_type() {
    let tree = Expression::<Whole>::parse("(a + 2) * b - 7 / c", abc).unwrap().unwrap_real();
    let a = vec![Whole(1), Whole(2)];
    let b = vec![Whole(10), Whole(-3)];
    let c = vec![Whole(2), Whole(7)];
    let bindings: &[&[Whole]] = &[&a, &b, &c];
    let output = tree.evaluate(bindings, &mut Registers::new(2));
    assert_eq!(output, vec![Whole(27), Whole(-13)]);
}

#[test]
fn variable_names_are_listed_once_by_kind() {
    let names = Expression::<F64>::parse_real_variable_names("b + a * b - c / a").unwrap();
    assert_eq!(names, vec!["b", "a", "c"]);
    let text = "x == \"W\" && y > 1 || \"V\" != z && x == y";
    let names = Expression::<F64>::parse_real_variable_names(text).unwrap();
    assert_eq!(names, vec!["y", "x"]);
    let names = Expression::<F64>::parse_string_variable_names(text).unwrap();
    assert_eq!(names, vec!["x", "z"]);
    let names = Expression::<F64>::parse_string_variable_names("1 + 2").unwrap();
    assert!(names.is_empty());
    // Listing names reads no number.
    let names = Expression::<Whole>::parse_real_variable_names("a + 1.5").unwrap();
    assert_eq!(names, vec!["a"]);
    assert_eq!(
        Expression::<F64>::parse_real_variable_names("a +").unwrap_err(),
        ParseError { kind: ParseErrorKind::UnexpectedEnd, position: 3 }
    );
}
