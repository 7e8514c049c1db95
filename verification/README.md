# El Continente Inacabado — núcleo verificado

Un diorama trazado por rayos que el usuario pinta región a región. Este
crate es la parte del proyecto que decide, escrita en Verus y demostrada
contra sus contratos; el trazado en sí, que trabaja con números reales, y la
entrada y salida viven fuera de la librería.

## `src/`: la librería

| Módulo | Qué decide |
|---|---|
| `scene` | Los grupos espaciales y los de revelación, y su orden fijo. |
| `accel` | La partición `grupo → cluster → objeto` de la jerarquía de aceleración. |
| `light` | El *light linking*: qué grupos ilumina cada luz y cuáles la bloquean. |
| `framebuffer` | El framebuffer, su formato de píxel y el único mapeo de escalado. |
| `input` | Las teclas de la demo, el reductor de cada cuadro y el píxel bajo el cursor. |
| `brush_palette` | Las herramientas del pincel, la disposición de la paleta y su dibujo. |
| `renderer` | La política de cuadros: cuándo se traza, a qué resolución y cuándo se duerme. |
| `revelation` | Qué grupos avanzan, cuándo arranca el finale y qué bloquea las sombras. |
| `cli` | La línea de órdenes del render sin ventana. |
| `ruido` | El hash de celda y el envolvido de índices del ruido periódico. |
| `hit`, `brush` | La identidad de las cartas `uv` y de las superficies pintables. |

Cada módulo declara sus leyes como funciones de prueba públicas (`ley_…`).

## `tests/`

Pruebas sobre valores concretos de cada función pública y de cada ley.

## `app/`

El generador de los assets de textura y skybox: el ruido, el color y la
curva sRGB en coma flotante, y la escritura de los PNG.
