use mill::ast::{Ast, Statement};
use mill::passes::{AstPass, AstPassKind};
use mill::statement::parse;

struct NoTopLevelBreak;

impl AstPass for NoTopLevelBreak {
    type Error = usize;

    const KIND: AstPassKind = AstPassKind::Validation;

    fn run(self, ast: Ast) -> Result<Ast, usize> {
        match ast.0.iter().position(|s| *s == Statement::Break) {
            Some(at) => Err(at),
            None => Ok(ast),
        }
    }
}

struct DropEmptyBlocks;

impl AstPass for DropEmptyBlocks {
    type Error = ();

    const KIND: AstPassKind = AstPassKind::Optimization;

    fn run(self, ast: Ast) -> Result<Ast, ()> {
        let kept = ast
            .0
            .into_iter()
            .filter(|s| !matches!(s, Statement::Block { body } if body.is_empty()))
            .collect();
        Ok(Ast(kept))
    }
}

#[test]
fn a_validation_pass_accepts_or_refuses() {
    assert_eq!(NoTopLevelBreak::KIND, AstPassKind::Validation);
    let ast = parse("let x; x = 1;").unwrap();
    assert_eq!(NoTopLevelBreak.run(ast.clone()), Ok(ast));
    assert_eq!(NoTopLevelBreak.run(parse("let x; break;").unwrap()), Err(1));
}

#[test]
fn an_optimization_pass_gives_a_program_back() {
    assert_eq!(DropEmptyBlocks::KIND, AstPassKind::Optimization);
    assert_eq!(
        DropEmptyBlocks.run(parse("{ } let x; { } { x; }").unwrap()),
        Ok(parse("let x; { x; }").unwrap())
    );
}
