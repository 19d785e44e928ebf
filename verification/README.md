# Polyphonica

A practice-tool library for musicians: a metronome and drum-pattern player
with discrete beat scheduling, a chord-progression assistant built on music
theory, drum pattern and sample catalogs, a sample cache with a memory
budget, and beat visualization.

The library in `src/` is written in Verus and checked by the verifier: each
function is proved against its contract, and the logic that depends on
outside results (the clock, a chord source) is proved for every value they
can give.

- `melody/`: notes, chords and keys; scales, the circle of fifths and chord
  functions; the moving chord timeline; transition counts learned from common
  progressions; the melody assistant that keeps chords generated ahead of the
  beat.
- `timing/`: time signatures and click sounds; the discrete beat scheduler
  (times are clock readings, so the scheduling decisions are proved); the
  metronome.
- `patterns/`: genres and metadata, the pattern library with its genre and
  difficulty indexes and case-insensitive search, the step notation, the text
  forms of the JSON pattern catalog.
- `samples/`: the sample catalog with its category and tag indexes, and the
  sample cache that evicts the least recently used sample to stay within its
  memory budget.
- `visualization/`: what the beat display shows for each beat.
- `audio/`, `config/`: stream settings, accent contexts, the noise generator,
  configuration defaults.

`tests/` exercises the library. `app/` holds what stays outside the verifier:
floating-point synthesis and timing, file and configuration I/O, serde
formats, and the parts that read the clock or the disk.
