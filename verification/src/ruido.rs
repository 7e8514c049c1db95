//! La parte entera del ruido periódico de los assets: el hash de cada
//! celda de la rejilla y cómo se envuelven sus índices.
//!
//! El ruido es periódico porque los índices de la rejilla se envuelven: la
//! celda que sigue a la última es otra vez la primera, y por eso las
//! texturas repiten sin costura. La interpolación entre celdas trabaja con
//! números reales y vive con el generador.

use vstd::prelude::*;

verus! {

/// `x * k` en aritmética de 32 bits, como `u32::wrapping_mul`.
pub open spec fn mul32(x: u32, k: u32) -> u32 {
    ((x as int * k as int) % 0x1_0000_0000) as u32
}

/// La avalancha de bits del hash: tres rondas de desplazamiento y dos
/// multiplicaciones por constantes impares.
pub open spec fn avalancha(h: u32) -> u32 {
    let a = h ^ (h >> 15u32);
    let b = mul32(a, 0x2C1B_3C6D);
    let c = b ^ (b >> 12u32);
    let d = mul32(c, 0x297A_2D39);
    d ^ (d >> 15u32)
}

/// El hash de la celda `(x, y)` con una semilla: cada índice se mezcla con
/// su propia constante y el resultado pasa por la avalancha.
pub open spec fn hash_de_celda(x: i32, y: i32, semilla: u32) -> u32 {
    avalancha(semilla ^ mul32(x as u32, 0x27D4_EB2D) ^ mul32(y as u32, 0x1656_67B1))
}

/// Los 24 bits altos del hash de la celda: lo que el generador reparte en
/// `0.0..1.0` dividiendo por `2²⁴`.
pub open spec fn valor_de_celda(x: i32, y: i32, semilla: u32) -> u32 {
    hash_de_celda(x, y, semilla) >> 8u32
}

/// Valor entero de la celda `(x, y)`, en `0..2²⁴`. Determinista y sin
/// estado: la misma celda y la misma semilla dan siempre el mismo valor.
pub fn valor_entero(x: i32, y: i32, semilla: u32) -> (r: u32)
    ensures
        r == valor_de_celda(x, y, semilla),
        r < 0x100_0000,
{
    let mut h = semilla ^ (x as u32).wrapping_mul(0x27D4_EB2D) ^ (y as u32).wrapping_mul(0x1656_67B1);
    h ^= h >> 15;
    h = h.wrapping_mul(0x2C1B_3C6D);
    h ^= h >> 12;
    h = h.wrapping_mul(0x297A_2D39);
    h ^= h >> 15;
    let r = h >> 8;
    assert(r < 0x100_0000) by (bit_vector)
        requires
            r == h >> 8u32,
    ;
    r
}

/// El índice `i` de una rejilla de `n` celdas que se repite: su resto
/// euclídeo, siempre en `0..n`.
pub fn envolver(i: i32, n: i32) -> (r: i32)
    requires
        n > 0,
    ensures
        r == i % n,
        0 <= r < n,
{
    match i.checked_rem_euclid(n) {
        Some(r) => r,
        None => 0,
    }
}

/// La rejilla envuelve: avanzar un número entero de periodos no cambia la
/// celda envuelta, y por tanto tampoco su valor. Es lo que hace que las
/// texturas repitan sin costura.
pub proof fn ley_la_rejilla_envuelve(i: int, k: int, n: int)
    requires
        n > 0,
    ensures
        (i + k * n) % n == i % n,
{
    assert(k * n == n * k) by (nonlinear_arith);
    vstd::arithmetic::div_mod::lemma_mod_multiples_vanish(k, i, n);
}

} // verus!
