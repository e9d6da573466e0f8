# bevy_parallaxium

Scrolling parallax backgrounds for the Bevy engine.

- `src/` is the verified library (Verus): how a layer repeats (`LayerRepeat`),
  how repeated tiles are mirrored (`RepeatStrategy`), which tiles make up a
  layer's grid and how many textures it counts along each axis, the layer's
  texture-atlas layout, and the frame stepping of sprite-sheet animations.
- `app/` is the Bevy plugin around it: the components, the move message and
  the systems that spawn, move and wrap layer tiles. Their arithmetic is on
  `f32` values and is not verified.
