use nelder_mead::error::SolveError;
use nelder_mead::simplex::initial_simplex;

fn bits(v: &[f64]) -> Vec<u64> {
    v.iter().map(|x| x.to_bits()).collect()
}

fn build(guess: &[f64]) -> Result<Vec<Vec<f64>>, SolveError> {
    let norm = guess.iter().map(|x| x * x).sum::<f64>().sqrt();
    let perturbed: Vec<f64> = guess.iter().map(|x| x + x / norm * 0.05).collect();
    let s = initial_simplex(&bits(guess), norm.to_bits(), &bits(&perturbed))?;
    Ok(s.iter().map(|v| v.iter().map(|b| f64::from_bits(*b)).collect()).collect())
}

#[test]
fn test_initial_simplex() {
    let vector = vec![3.0, 4.0];
    assert_eq!(
        build(&vector).unwrap(),
        [[3.0, 4.0], [3.0 + 0.05 * 0.6, 4.0], [3.0, 4.0 + 0.05 * 0.8]]
    );
}

#[test]
fn simplex_has_one_more_vertex_than_dimensions() {
    let guess = [1.0, -2.0, 0.0, 5.0];
    let s = build(&guess).unwrap();
    assert_eq!(s.len(), 5);
    assert_eq!(s[0], guess);
    for i in 0..4 {
        for j in 0..4 {
            if i != j {
                assert_eq!(s[i + 1][j], guess[j]);
            }
        }
    }
    assert_ne!(s[1][0], guess[0]);
}

#[test]
fn zero_or_empty_guess_is_invalid() {
    assert_eq!(build(&[0.0, 0.0]), Err(SolveError::InvalidInput));
    assert_eq!(build(&[0.0, -0.0]), Err(SolveError::InvalidInput));
    assert_eq!(build(&[]), Err(SolveError::InvalidInput));
}

#[test]
fn non_finite_norm_is_invalid() {
    let guess = bits(&[1.0]);
    assert_eq!(
        initial_simplex(&guess, f64::INFINITY.to_bits(), &guess),
        Err(SolveError::InvalidInput)
    );
    assert_eq!(
        initial_simplex(&guess, f64::NAN.to_bits(), &guess),
        Err(SolveError::InvalidInput)
    );
}
