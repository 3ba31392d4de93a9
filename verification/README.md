# flint_ai

The verified core of a host for model scripts. A script sees tensors, weights, tokenizers, language
models and image contexts as integer handles; this library keeps the tables behind the handles,
reads and checks the arguments of every host function, decides what is to be computed, and turns
what comes back into what the script gets. `src/` holds all of that with its contracts, checked by
Verus. `app/` holds what talks to LibTorch, llama.cpp, stable-diffusion.cpp, the file system and
the script machine.

- `args`, `value`, `text`, `number`: values of scripts, arguments, texts and numbers
- `cli`, `cli_parse`, `cli_laws`: the option parser that scripts use
- `context`, `runtime`, `registry`, `tables`, `pair`: handles, runs and their results
- `weights`, `rope`, `ops`, `shapes`, `nn`, `vl`: weights, tensor operations and layers
- `json`, `support`, `tokenizer`, `labels`: text to tokens and back
- `images`, `lama`: inpainting
- `llama`: language models
- `native`, `ggml`, `sd`: native libraries, devices and image generation
- `device`, `program`, `clock`: the command line programs

Weights with floating-point elements are turned into `float`; set `KOHARU_TORCH_WEIGHT_KIND` to
`native`, `half`, `bf16` or `float` for another type. The device is `cpu`, `cuda`, `cuda:N`, `mps`
or `vulkan`.
